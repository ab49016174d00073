//! The configuration: its defaults, and how the settings of a file are laid over them.
use vstd::prelude::*;

use crate::error::{Error, ErrorKind};
use crate::path::{file_part, join_path, path_below};
use crate::state::{plain_name, plan_write, writes, FileWrite, PRIVATE_FILE_MODE};
use crate::text::{blank, decode_text, is_blank, same_text, split_words, texts, utf8_fault};
use crate::text::{words, words_of_blank};

verus! {

/// Which commands are run.
#[derive(Debug, Clone)]
pub struct Runner {
    pub default_command: String,
    pub default_command_args: Vec<String>,
    pub login_command: String,
}

/// How sessions are named, chosen and scored.
#[derive(Debug, Clone)]
pub struct Sessions {
    pub alias_pattern: String,
    pub assignment_history_window: usize,
    pub pick_behavior: String,
    pub stale_sec: i64,
    pub busy_penalty: i64,
    pub unknown_usage_left_percent: i64,
    pub usage_primary_weight_percent: i64,
    pub usage_secondary_weight_percent: i64,
    pub restart_penalty_per_restart: i64,
    pub restart_penalty_cap: i64,
    pub staleness_penalty_max: i64,
}

/// The whole configuration.
#[derive(Debug, Clone)]
pub struct Config {
    pub runner: Runner,
    pub sessions: Sessions,
}

/// The settings of the `[runner]` table that a file gives.
#[derive(Debug)]
pub struct PartialRunner {
    pub default_command: Option<String>,
    pub default_command_args: Option<Vec<String>>,
    pub login_command: Option<String>,
}

/// The settings of the `[sessions]` table that a file gives.
#[derive(Debug)]
pub struct PartialSessions {
    pub alias_pattern: Option<String>,
    pub assignment_history_window: Option<usize>,
    pub pick_behavior: Option<String>,
    pub stale_sec: Option<i64>,
    pub busy_penalty: Option<i64>,
    pub unknown_usage_left_percent: Option<i64>,
    pub usage_primary_weight_percent: Option<i64>,
    pub usage_secondary_weight_percent: Option<i64>,
    pub restart_penalty_per_restart: Option<i64>,
    pub restart_penalty_cap: Option<i64>,
    pub staleness_penalty_max: Option<i64>,
}

/// The settings that a file gives.
#[derive(Debug)]
pub struct PartialConfig {
    pub runner: Option<PartialRunner>,
    pub sessions: Option<PartialSessions>,
}

// ---------------------------------------------------------------------------
// The settings as mathematical values
// ---------------------------------------------------------------------------
pub struct RunnerView {
    pub default_command: Seq<char>,
    pub default_command_args: Seq<Seq<char>>,
    pub login_command: Seq<char>,
}

pub struct SessionsView {
    pub alias_pattern: Seq<char>,
    pub assignment_history_window: int,
    pub pick_behavior: Seq<char>,
    pub stale_sec: int,
    pub busy_penalty: int,
    pub unknown_usage_left_percent: int,
    pub usage_primary_weight_percent: int,
    pub usage_secondary_weight_percent: int,
    pub restart_penalty_per_restart: int,
    pub restart_penalty_cap: int,
    pub staleness_penalty_max: int,
}

pub struct ConfigView {
    pub runner: RunnerView,
    pub sessions: SessionsView,
}

pub struct PartialRunnerView {
    pub default_command: Option<Seq<char>>,
    pub default_command_args: Option<Seq<Seq<char>>>,
    pub login_command: Option<Seq<char>>,
}

pub struct PartialSessionsView {
    pub alias_pattern: Option<Seq<char>>,
    pub assignment_history_window: Option<int>,
    pub pick_behavior: Option<Seq<char>>,
    pub stale_sec: Option<int>,
    pub busy_penalty: Option<int>,
    pub unknown_usage_left_percent: Option<int>,
    pub usage_primary_weight_percent: Option<int>,
    pub usage_secondary_weight_percent: Option<int>,
    pub restart_penalty_per_restart: Option<int>,
    pub restart_penalty_cap: Option<int>,
    pub staleness_penalty_max: Option<int>,
}

pub struct PartialConfigView {
    pub runner: PartialRunnerView,
    pub sessions: PartialSessionsView,
}

impl View for Runner {
    type V = RunnerView;

    open spec fn view(&self) -> RunnerView {
        RunnerView {
            default_command: self.default_command@,
            default_command_args: texts(self.default_command_args@),
            login_command: self.login_command@,
        }
    }
}

impl View for Sessions {
    type V = SessionsView;

    open spec fn view(&self) -> SessionsView {
        SessionsView {
            alias_pattern: self.alias_pattern@,
            assignment_history_window: self.assignment_history_window as int,
            pick_behavior: self.pick_behavior@,
            stale_sec: self.stale_sec as int,
            busy_penalty: self.busy_penalty as int,
            unknown_usage_left_percent: self.unknown_usage_left_percent as int,
            usage_primary_weight_percent: self.usage_primary_weight_percent as int,
            usage_secondary_weight_percent: self.usage_secondary_weight_percent as int,
            restart_penalty_per_restart: self.restart_penalty_per_restart as int,
            restart_penalty_cap: self.restart_penalty_cap as int,
            staleness_penalty_max: self.staleness_penalty_max as int,
        }
    }
}

impl View for Config {
    type V = ConfigView;

    open spec fn view(&self) -> ConfigView {
        ConfigView { runner: self.runner@, sessions: self.sessions@ }
    }
}

/// The text of an optional string.
pub open spec fn maybe_text(s: Option<String>) -> Option<Seq<char>> {
    match s {
        Some(s) => Some(s@),
        None => None,
    }
}

pub open spec fn maybe_int(n: Option<i64>) -> Option<int> {
    match n {
        Some(n) => Some(n as int),
        None => None,
    }
}

impl View for PartialRunner {
    type V = PartialRunnerView;

    open spec fn view(&self) -> PartialRunnerView {
        PartialRunnerView {
            default_command: maybe_text(self.default_command),
            default_command_args: match self.default_command_args {
                Some(args) => Some(texts(args@)),
                None => None,
            },
            login_command: maybe_text(self.login_command),
        }
    }
}

impl View for PartialSessions {
    type V = PartialSessionsView;

    open spec fn view(&self) -> PartialSessionsView {
        PartialSessionsView {
            alias_pattern: maybe_text(self.alias_pattern),
            assignment_history_window: match self.assignment_history_window {
                Some(n) => Some(n as int),
                None => None,
            },
            pick_behavior: maybe_text(self.pick_behavior),
            stale_sec: maybe_int(self.stale_sec),
            busy_penalty: maybe_int(self.busy_penalty),
            unknown_usage_left_percent: maybe_int(self.unknown_usage_left_percent),
            usage_primary_weight_percent: maybe_int(self.usage_primary_weight_percent),
            usage_secondary_weight_percent: maybe_int(self.usage_secondary_weight_percent),
            restart_penalty_per_restart: maybe_int(self.restart_penalty_per_restart),
            restart_penalty_cap: maybe_int(self.restart_penalty_cap),
            staleness_penalty_max: maybe_int(self.staleness_penalty_max),
        }
    }
}

impl View for PartialConfig {
    type V = PartialConfigView;

    /// A table that is missing gives no setting.
    open spec fn view(&self) -> PartialConfigView {
        PartialConfigView {
            runner: match self.runner {
                Some(r) => r@,
                None => nothing_set().runner,
            },
            sessions: match self.sessions {
                Some(s) => s@,
                None => nothing_set().sessions,
            },
        }
    }
}

/// A file that gives no setting.
pub open spec fn nothing_set() -> PartialConfigView {
    PartialConfigView {
        runner: PartialRunnerView {
            default_command: None,
            default_command_args: None,
            login_command: None,
        },
        sessions: PartialSessionsView {
            alias_pattern: None,
            assignment_history_window: None,
            pick_behavior: None,
            stale_sec: None,
            busy_penalty: None,
            unknown_usage_left_percent: None,
            usage_primary_weight_percent: None,
            usage_secondary_weight_percent: None,
            restart_penalty_per_restart: None,
            restart_penalty_cap: None,
            staleness_penalty_max: None,
        },
    }
}

/// A file that gives every setting of `config`.
pub open spec fn everything_set(config: ConfigView) -> PartialConfigView {
    PartialConfigView {
        runner: PartialRunnerView {
            default_command: Some(config.runner.default_command),
            default_command_args: Some(config.runner.default_command_args),
            login_command: Some(config.runner.login_command),
        },
        sessions: PartialSessionsView {
            alias_pattern: Some(config.sessions.alias_pattern),
            assignment_history_window: Some(config.sessions.assignment_history_window),
            pick_behavior: Some(config.sessions.pick_behavior),
            stale_sec: Some(config.sessions.stale_sec),
            busy_penalty: Some(config.sessions.busy_penalty),
            unknown_usage_left_percent: Some(config.sessions.unknown_usage_left_percent),
            usage_primary_weight_percent: Some(config.sessions.usage_primary_weight_percent),
            usage_secondary_weight_percent: Some(config.sessions.usage_secondary_weight_percent),
            restart_penalty_per_restart: Some(config.sessions.restart_penalty_per_restart),
            restart_penalty_cap: Some(config.sessions.restart_penalty_cap),
            staleness_penalty_max: Some(config.sessions.staleness_penalty_max),
        },
    }
}

/// The configuration without any file.
pub open spec fn default_settings() -> ConfigView {
    ConfigView {
        runner: RunnerView {
            default_command: "codex"@,
            default_command_args: seq![],
            login_command: "codex login"@,
        },
        sessions: SessionsView {
            alias_pattern: "^[A-Za-z0-9][A-Za-z0-9._-]{0,63}$"@,
            assignment_history_window: 30,
            pick_behavior: "round_robin"@,
            stale_sec: 420,
            busy_penalty: 5,
            unknown_usage_left_percent: 30,
            usage_primary_weight_percent: 60,
            usage_secondary_weight_percent: 40,
            restart_penalty_per_restart: 2,
            restart_penalty_cap: 20,
            staleness_penalty_max: 10,
        },
    }
}

/// `given`, unless it is missing or blank.
pub open spec fn text_or(given: Option<Seq<char>>, default: Seq<char>) -> Seq<char> {
    match given {
        Some(s) => if blank(s) {
            default
        } else {
            s
        },
        None => default,
    }
}

/// `given`, unless it is missing or below `least`.
pub open spec fn at_least_or(given: Option<int>, least: int, default: int) -> int {
    match given {
        Some(n) => if n < least {
            default
        } else {
            n
        },
        None => default,
    }
}

/// Whether `behavior` is one of the ways to pick a session.
pub open spec fn known_behavior(behavior: Seq<char>) -> bool {
    behavior == "round_robin"@ || behavior == "last"@
}

/// The configuration that the settings of a file make. A setting that is missing or unusable
/// falls back to its default; the two weights fall back together where neither is positive.
pub open spec fn resolved(file: PartialConfigView) -> ConfigView {
    let d = default_settings();
    let s = file.sessions;
    let primary = at_least_or(
        s.usage_primary_weight_percent,
        0,
        d.sessions.usage_primary_weight_percent,
    );
    let secondary = at_least_or(
        s.usage_secondary_weight_percent,
        0,
        d.sessions.usage_secondary_weight_percent,
    );
    ConfigView {
        runner: RunnerView {
            default_command: text_or(file.runner.default_command, d.runner.default_command),
            default_command_args: match file.runner.default_command_args {
                Some(args) => args,
                None => d.runner.default_command_args,
            },
            login_command: text_or(file.runner.login_command, d.runner.login_command),
        },
        sessions: SessionsView {
            alias_pattern: text_or(s.alias_pattern, d.sessions.alias_pattern),
            assignment_history_window: at_least_or(
                s.assignment_history_window,
                1,
                d.sessions.assignment_history_window,
            ),
            pick_behavior: match s.pick_behavior {
                Some(b) => if known_behavior(b) {
                    b
                } else {
                    d.sessions.pick_behavior
                },
                None => d.sessions.pick_behavior,
            },
            stale_sec: at_least_or(s.stale_sec, 1, d.sessions.stale_sec),
            busy_penalty: at_least_or(s.busy_penalty, 0, d.sessions.busy_penalty),
            unknown_usage_left_percent: match s.unknown_usage_left_percent {
                Some(n) => if 0 <= n <= 100 {
                    n
                } else {
                    d.sessions.unknown_usage_left_percent
                },
                None => d.sessions.unknown_usage_left_percent,
            },
            usage_primary_weight_percent: if primary + secondary == 0 {
                d.sessions.usage_primary_weight_percent
            } else {
                primary
            },
            usage_secondary_weight_percent: if primary + secondary == 0 {
                d.sessions.usage_secondary_weight_percent
            } else {
                secondary
            },
            restart_penalty_per_restart: at_least_or(
                s.restart_penalty_per_restart,
                0,
                d.sessions.restart_penalty_per_restart,
            ),
            restart_penalty_cap: at_least_or(
                s.restart_penalty_cap,
                0,
                d.sessions.restart_penalty_cap,
            ),
            staleness_penalty_max: at_least_or(
                s.staleness_penalty_max,
                0,
                d.sessions.staleness_penalty_max,
            ),
        },
    }
}

/// Whether the two weights that a file gives can be added.
pub open spec fn weights_can_be_added(file: PartialConfigView) -> bool {
    at_least_or(file.sessions.usage_primary_weight_percent, 0, 60) + at_least_or(
        file.sessions.usage_secondary_weight_percent,
        0,
        40,
    ) <= i64::MAX
}

/// Whether every setting of `config` is usable.
pub open spec fn usable(config: ConfigView) -> bool {
    let s = config.sessions;
    &&& !blank(config.runner.default_command)
    &&& !blank(config.runner.login_command)
    &&& !blank(s.alias_pattern)
    &&& s.assignment_history_window > 0
    &&& known_behavior(s.pick_behavior)
    &&& s.stale_sec > 0
    &&& s.busy_penalty >= 0
    &&& 0 <= s.unknown_usage_left_percent <= 100
    &&& s.usage_primary_weight_percent >= 0
    &&& s.usage_secondary_weight_percent >= 0
    &&& s.usage_primary_weight_percent + s.usage_secondary_weight_percent > 0
    &&& s.restart_penalty_per_restart >= 0
    &&& s.restart_penalty_cap >= 0
    &&& s.staleness_penalty_max >= 0
}

// ---------------------------------------------------------------------------
// Laws
// ---------------------------------------------------------------------------
proof fn default_texts()
    ensures
        !blank("codex"@),
        !blank("codex login"@),
        !blank("^[A-Za-z0-9][A-Za-z0-9._-]{0,63}$"@),
{
    reveal_strlit("codex");
    reveal_strlit("codex login");
    reveal_strlit("^[A-Za-z0-9][A-Za-z0-9._-]{0,63}$");
    assert(!crate::text::white_space("codex"@[0]));
    assert(!crate::text::white_space("codex login"@[0]));
    assert(!crate::text::white_space("^[A-Za-z0-9][A-Za-z0-9._-]{0,63}$"@[0]));
}

/// Whatever a file says, the configuration that it makes is usable.
pub proof fn every_file_makes_a_usable_config(file: PartialConfigView)
    ensures
        usable(resolved(file)),
{
    default_texts();
}

/// A usable configuration, written out in full and read again, is the same; and it can be read
/// again where its weights can be added.
pub proof fn usable_config_survives_a_reload(config: ConfigView)
    requires
        usable(config),
    ensures
        resolved(everything_set(config)) == config,
        weights_can_be_added(everything_set(config)) <==> config.sessions.usage_primary_weight_percent
            + config.sessions.usage_secondary_weight_percent <= i64::MAX,
{
}

/// A file that gives no setting makes the default configuration.
pub proof fn empty_file_makes_the_defaults()
    ensures
        resolved(nothing_set()) == default_settings(),
{
}

/// Each setting depends on what the file gives for that same setting, and on nothing else in the
/// file; the two weights of the rate limits depend on each other.
pub proof fn settings_do_not_depend_on_others(a: PartialConfigView, b: PartialConfigView)
    ensures
        a.runner.default_command == b.runner.default_command
            ==> resolved(a).runner.default_command == resolved(b).runner.default_command,
        a.runner.default_command_args == b.runner.default_command_args
            ==> resolved(a).runner.default_command_args == resolved(b).runner.default_command_args,
        a.runner.login_command == b.runner.login_command
            ==> resolved(a).runner.login_command == resolved(b).runner.login_command,
        a.sessions.alias_pattern == b.sessions.alias_pattern
            ==> resolved(a).sessions.alias_pattern == resolved(b).sessions.alias_pattern,
        a.sessions.assignment_history_window == b.sessions.assignment_history_window
            ==> resolved(a).sessions.assignment_history_window
                == resolved(b).sessions.assignment_history_window,
        a.sessions.pick_behavior == b.sessions.pick_behavior
            ==> resolved(a).sessions.pick_behavior == resolved(b).sessions.pick_behavior,
        a.sessions.stale_sec == b.sessions.stale_sec
            ==> resolved(a).sessions.stale_sec == resolved(b).sessions.stale_sec,
        a.sessions.busy_penalty == b.sessions.busy_penalty
            ==> resolved(a).sessions.busy_penalty == resolved(b).sessions.busy_penalty,
        a.sessions.unknown_usage_left_percent == b.sessions.unknown_usage_left_percent
            ==> resolved(a).sessions.unknown_usage_left_percent
                == resolved(b).sessions.unknown_usage_left_percent,
        a.sessions.restart_penalty_per_restart == b.sessions.restart_penalty_per_restart
            ==> resolved(a).sessions.restart_penalty_per_restart
                == resolved(b).sessions.restart_penalty_per_restart,
        a.sessions.restart_penalty_cap == b.sessions.restart_penalty_cap
            ==> resolved(a).sessions.restart_penalty_cap
                == resolved(b).sessions.restart_penalty_cap,
        a.sessions.staleness_penalty_max == b.sessions.staleness_penalty_max
            ==> resolved(a).sessions.staleness_penalty_max
                == resolved(b).sessions.staleness_penalty_max,
        a.sessions.usage_primary_weight_percent == b.sessions.usage_primary_weight_percent
            && a.sessions.usage_secondary_weight_percent
            == b.sessions.usage_secondary_weight_percent ==> resolved(
            a,
        ).sessions.usage_primary_weight_percent == resolved(b).sessions.usage_primary_weight_percent
            && resolved(a).sessions.usage_secondary_weight_percent == resolved(
            b,
        ).sessions.usage_secondary_weight_percent,
{
}

/// What a file gives is what counts, whatever else it gives or leaves out: a command or a pattern
/// that is not blank, any arguments, a way to pick that is known, and a number that is not too
/// small.
pub proof fn what_a_file_gives_counts(
    file: PartialConfigView,
    text: Seq<char>,
    args: Seq<Seq<char>>,
    n: int,
)
    ensures
        file.runner.default_command == Some(text) && !blank(text)
            ==> resolved(file).runner.default_command == text,
        file.runner.login_command == Some(text) && !blank(text)
            ==> resolved(file).runner.login_command == text,
        file.sessions.alias_pattern == Some(text) && !blank(text)
            ==> resolved(file).sessions.alias_pattern == text,
        file.runner.default_command_args == Some(args) ==> resolved(file).runner.default_command_args
            == args,
        file.sessions.pick_behavior == Some(text) && (text == "round_robin"@ || text == "last"@)
            ==> resolved(file).sessions.pick_behavior == text,
        file.sessions.unknown_usage_left_percent == Some(n) && 0 <= n <= 100 ==> resolved(
            file,
        ).sessions.unknown_usage_left_percent == n,
        file.sessions.stale_sec == Some(n) && n >= 1 ==> resolved(file).sessions.stale_sec == n,
        file.sessions.busy_penalty == Some(n) && n >= 0
            ==> resolved(file).sessions.busy_penalty == n,
        file.sessions.restart_penalty_per_restart == Some(n) && n >= 0
            ==> resolved(file).sessions.restart_penalty_per_restart == n,
        file.sessions.restart_penalty_cap == Some(n) && n >= 0
            ==> resolved(file).sessions.restart_penalty_cap == n,
        file.sessions.staleness_penalty_max == Some(n) && n >= 0
            ==> resolved(file).sessions.staleness_penalty_max == n,
        file.sessions.assignment_history_window == Some(n) && n >= 1
            ==> resolved(file).sessions.assignment_history_window == n,
{
}

/// What a file does not give, or gives as a value that cannot be used, has its default, whatever
/// else the file gives.
pub proof fn what_a_file_lacks_has_its_default(
    file: PartialConfigView,
    text: Seq<char>,
    n: int,
)
    ensures
        file.runner.default_command is None ==> resolved(file).runner.default_command == "codex"@,
        file.runner.default_command == Some(text) && blank(text)
            ==> resolved(file).runner.default_command == "codex"@,
        file.runner.login_command is None ==> resolved(file).runner.login_command == "codex login"@,
        file.runner.login_command == Some(text) && blank(text)
            ==> resolved(file).runner.login_command == "codex login"@,
        file.sessions.alias_pattern is None
            ==> resolved(file).sessions.alias_pattern == "^[A-Za-z0-9][A-Za-z0-9._-]{0,63}$"@,
        file.sessions.alias_pattern == Some(text) && blank(text)
            ==> resolved(file).sessions.alias_pattern == "^[A-Za-z0-9][A-Za-z0-9._-]{0,63}$"@,
        file.runner.default_command_args is None ==> resolved(
            file,
        ).runner.default_command_args.len() == 0,
        file.sessions.pick_behavior is None ==> resolved(file).sessions.pick_behavior
            == "round_robin"@,
        file.sessions.pick_behavior == Some(text) && text != "round_robin"@ && text != "last"@
            ==> resolved(file).sessions.pick_behavior == "round_robin"@,
        file.sessions.unknown_usage_left_percent is None ==> resolved(
            file,
        ).sessions.unknown_usage_left_percent == 30,
        file.sessions.unknown_usage_left_percent == Some(n) && !(0 <= n <= 100) ==> resolved(
            file,
        ).sessions.unknown_usage_left_percent == 30,
        file.sessions.stale_sec is None ==> resolved(file).sessions.stale_sec == 420,
        file.sessions.stale_sec == Some(n) && n < 1 ==> resolved(file).sessions.stale_sec == 420,
        file.sessions.busy_penalty is None ==> resolved(file).sessions.busy_penalty == 5,
        file.sessions.busy_penalty == Some(n) && n < 0
            ==> resolved(file).sessions.busy_penalty == 5,
        file.sessions.restart_penalty_per_restart is None
            ==> resolved(file).sessions.restart_penalty_per_restart == 2,
        file.sessions.restart_penalty_per_restart == Some(n) && n < 0
            ==> resolved(file).sessions.restart_penalty_per_restart == 2,
        file.sessions.restart_penalty_cap is None
            ==> resolved(file).sessions.restart_penalty_cap == 20,
        file.sessions.restart_penalty_cap == Some(n) && n < 0
            ==> resolved(file).sessions.restart_penalty_cap == 20,
        file.sessions.staleness_penalty_max is None
            ==> resolved(file).sessions.staleness_penalty_max == 10,
        file.sessions.staleness_penalty_max == Some(n) && n < 0
            ==> resolved(file).sessions.staleness_penalty_max == 10,
        file.sessions.assignment_history_window is None
            ==> resolved(file).sessions.assignment_history_window == 30,
        file.sessions.assignment_history_window == Some(n) && n < 1
            ==> resolved(file).sessions.assignment_history_window == 30,
{
}

/// The weights are those of the file where it gives both and not both are zero. One that is missing
/// or negative is the default, and so are both where both would be zero.
pub proof fn weights_are_those_of_the_file(file: PartialConfigView, v: int, w: int)
    ensures
        ({
            let given_v = file.sessions.usage_primary_weight_percent;
            let given_w = file.sessions.usage_secondary_weight_percent;
            let no_v = given_v is None || given_v->0 < 0;
            let no_w = given_w is None || given_w->0 < 0;
            let primary = resolved(file).sessions.usage_primary_weight_percent;
            let secondary = resolved(file).sessions.usage_secondary_weight_percent;
            &&& given_v == Some(v) && given_w == Some(w) && v >= 0 && w >= 0 && v + w > 0
                ==> primary == v && secondary == w
            &&& given_v == Some(v) && given_w == Some(w) && v == 0 && w == 0 ==> primary == 60
                && secondary == 40
            &&& given_v == Some(v) && v >= 0 && no_w ==> primary == v && secondary == 40
            &&& no_v && given_w == Some(w) && w >= 0 ==> primary == 60 && secondary == w
            &&& no_v && no_w ==> primary == 60 && secondary == 40
        }),
{
}

/// Weights can be added unless both are given, or one and the default of the other, and their sum is
/// beyond what sixty-four bits hold.
pub proof fn everyday_weights_can_be_added(file: PartialConfigView, v: int, w: int)
    ensures
        ({
            let given_v = file.sessions.usage_primary_weight_percent;
            let given_w = file.sessions.usage_secondary_weight_percent;
            &&& given_v is None && given_w is None ==> weights_can_be_added(file)
            &&& given_v == Some(v) && given_w == Some(w) && v >= 0 && w >= 0 ==> (
            weights_can_be_added(file) <==> v + w <= 9_223_372_036_854_775_807)
            &&& given_v == Some(v) && v >= 0 && given_w is None ==> (weights_can_be_added(file)
                <==> v + 40 <= 9_223_372_036_854_775_807)
            &&& given_v is None && given_w == Some(w) && w >= 0 ==> (weights_can_be_added(file)
                <==> 60 + w <= 9_223_372_036_854_775_807)
        }),
{
}

/// What is said of a configuration and of a file is said of their fields, each by its own name.
pub proof fn the_views_of_settings_are_their_fields(config: Config, file: PartialConfig)
    ensures
        config@.runner.default_command == config.runner.default_command@,
        config@.runner.default_command_args == texts(config.runner.default_command_args@),
        config@.runner.login_command == config.runner.login_command@,
        config@.sessions.alias_pattern == config.sessions.alias_pattern@,
        config@.sessions.pick_behavior == config.sessions.pick_behavior@,
        config@.sessions.assignment_history_window == config.sessions.assignment_history_window,
        config@.sessions.stale_sec == config.sessions.stale_sec,
        config@.sessions.busy_penalty == config.sessions.busy_penalty,
        config@.sessions.unknown_usage_left_percent == config.sessions.unknown_usage_left_percent,
        config@.sessions.usage_primary_weight_percent == config.sessions.usage_primary_weight_percent,
        config@.sessions.usage_secondary_weight_percent == config.sessions.usage_secondary_weight_percent,
        config@.sessions.restart_penalty_per_restart == config.sessions.restart_penalty_per_restart,
        config@.sessions.restart_penalty_cap == config.sessions.restart_penalty_cap,
        config@.sessions.staleness_penalty_max == config.sessions.staleness_penalty_max,
        file.runner is None ==> file@.runner == nothing_set().runner,
        file.sessions is None ==> file@.sessions == nothing_set().sessions,
        file.runner is Some ==> {
            let given = file.runner->0;
            let seen = file@.runner;
            &&& seen.default_command is Some <==> given.default_command is Some
            &&& seen.default_command is Some ==> seen.default_command->0
                == given.default_command->0@
            &&& seen.default_command_args is Some <==> given.default_command_args is Some
            &&& seen.default_command_args is Some ==> seen.default_command_args->0 == texts(
                given.default_command_args->0@,
            )
            &&& seen.login_command is Some <==> given.login_command is Some
            &&& seen.login_command is Some ==> seen.login_command->0 == given.login_command->0@
        },
        file.sessions is Some ==> {
            let given = file.sessions->0;
            let seen = file@.sessions;
            &&& seen.alias_pattern is Some <==> given.alias_pattern is Some
            &&& seen.alias_pattern is Some ==> seen.alias_pattern->0 == given.alias_pattern->0@
            &&& seen.pick_behavior is Some <==> given.pick_behavior is Some
            &&& seen.pick_behavior is Some ==> seen.pick_behavior->0 == given.pick_behavior->0@
            &&& seen.assignment_history_window is Some <==> given.assignment_history_window is Some
            &&& seen.assignment_history_window is Some ==> seen.assignment_history_window->0 == given.assignment_history_window->0
            &&& seen.stale_sec is Some <==> given.stale_sec is Some
            &&& seen.stale_sec is Some ==> seen.stale_sec->0 == given.stale_sec->0
            &&& seen.busy_penalty is Some <==> given.busy_penalty is Some
            &&& seen.busy_penalty is Some ==> seen.busy_penalty->0 == given.busy_penalty->0
            &&& seen.unknown_usage_left_percent is Some <==> given.unknown_usage_left_percent is Some
            &&& seen.unknown_usage_left_percent is Some ==> seen.unknown_usage_left_percent->0 == given.unknown_usage_left_percent->0
            &&& seen.usage_primary_weight_percent is Some <==> given.usage_primary_weight_percent is Some
            &&& seen.usage_primary_weight_percent is Some ==> seen.usage_primary_weight_percent->0 == given.usage_primary_weight_percent->0
            &&& seen.usage_secondary_weight_percent is Some <==> given.usage_secondary_weight_percent is Some
            &&& seen.usage_secondary_weight_percent is Some ==> seen.usage_secondary_weight_percent->0 == given.usage_secondary_weight_percent->0
            &&& seen.restart_penalty_per_restart is Some <==> given.restart_penalty_per_restart is Some
            &&& seen.restart_penalty_per_restart is Some ==> seen.restart_penalty_per_restart->0 == given.restart_penalty_per_restart->0
            &&& seen.restart_penalty_cap is Some <==> given.restart_penalty_cap is Some
            &&& seen.restart_penalty_cap is Some ==> seen.restart_penalty_cap->0 == given.restart_penalty_cap->0
            &&& seen.staleness_penalty_max is Some <==> given.staleness_penalty_max is Some
            &&& seen.staleness_penalty_max is Some ==> seen.staleness_penalty_max->0 == given.staleness_penalty_max->0
        },
{
}

// ---------------------------------------------------------------------------
// Executable operations
// ---------------------------------------------------------------------------
/// The configuration without any file.
pub fn default_config() -> (config: Config)
    ensures
        config@ == default_settings(),
{
    let config = Config {
        runner: Runner {
            default_command: "codex".to_string(),
            default_command_args: Vec::new(),
            login_command: "codex login".to_string(),
        },
        sessions: Sessions {
            alias_pattern: "^[A-Za-z0-9][A-Za-z0-9._-]{0,63}$".to_string(),
            assignment_history_window: 30,
            pick_behavior: "round_robin".to_string(),
            stale_sec: 420,
            busy_penalty: 5,
            unknown_usage_left_percent: 30,
            usage_primary_weight_percent: 60,
            usage_secondary_weight_percent: 40,
            restart_penalty_per_restart: 2,
            restart_penalty_cap: 20,
            staleness_penalty_max: 10,
        },
    };
    proof {
        assert(texts(config.runner.default_command_args@) =~= seq![]);
    }
    config
}

fn keep_text(given: Option<String>, default: String) -> (r: String)
    ensures
        r@ == text_or(maybe_text(given), default@),
{
    match given {
        Some(s) => if is_blank(s.as_str()) {
            default
        } else {
            s
        },
        None => default,
    }
}

fn keep_number(given: Option<i64>, least: i64, default: i64) -> (r: i64)
    ensures
        r == at_least_or(maybe_int(given), least as int, default as int),
{
    match given {
        Some(n) => if n < least {
            default
        } else {
            n
        },
        None => default,
    }
}

/// Whether the two weights that a file gives can be added.
pub fn check_weights(file: &PartialConfig) -> (r: bool)
    ensures
        r == weights_can_be_added(file@),
{
    match &file.sessions {
        Some(s) => {
            let primary: i64 = keep_number(s.usage_primary_weight_percent, 0, 60);
            let secondary: i64 = keep_number(s.usage_secondary_weight_percent, 0, 40);
            primary <= i64::MAX - secondary
        },
        None => true,
    }
}

fn resolve_sessions(given: PartialSessions) -> (r: Sessions)
    requires
        weights_can_be_added(
            PartialConfigView { runner: nothing_set().runner, sessions: given@ },
        ),
    ensures
        r@ == resolved(
            PartialConfigView { runner: nothing_set().runner, sessions: given@ },
        ).sessions,
{
    let d = default_config().sessions;
    let mut primary: i64 = keep_number(given.usage_primary_weight_percent, 0, 60);
    let mut secondary: i64 = keep_number(given.usage_secondary_weight_percent, 0, 40);
    if primary + secondary <= 0 {
        primary = d.usage_primary_weight_percent;
        secondary = d.usage_secondary_weight_percent;
    }
    let pick_behavior = match given.pick_behavior {
        Some(b) => if same_text(b.as_str(), "round_robin") || same_text(b.as_str(), "last") {
            b
        } else {
            d.pick_behavior
        },
        None => d.pick_behavior,
    };
    let unknown: i64 = match given.unknown_usage_left_percent {
        Some(n) => if 0 <= n && n <= 100 {
            n
        } else {
            d.unknown_usage_left_percent
        },
        None => d.unknown_usage_left_percent,
    };
    let window: usize = match given.assignment_history_window {
        Some(n) => if n == 0 {
            d.assignment_history_window
        } else {
            n
        },
        None => d.assignment_history_window,
    };
    Sessions {
        alias_pattern: keep_text(given.alias_pattern, d.alias_pattern),
        assignment_history_window: window,
        pick_behavior,
        stale_sec: keep_number(given.stale_sec, 1, d.stale_sec),
        busy_penalty: keep_number(given.busy_penalty, 0, d.busy_penalty),
        unknown_usage_left_percent: unknown,
        usage_primary_weight_percent: primary,
        usage_secondary_weight_percent: secondary,
        restart_penalty_per_restart: keep_number(
            given.restart_penalty_per_restart,
            0,
            d.restart_penalty_per_restart,
        ),
        restart_penalty_cap: keep_number(given.restart_penalty_cap, 0, d.restart_penalty_cap),
        staleness_penalty_max: keep_number(given.staleness_penalty_max, 0, d.staleness_penalty_max),
    }
}

/// The configuration that the settings of a file make; `None` stands for a file that is not
/// there. The two weights of the file must have a sum in range.
pub fn load(file: Option<PartialConfig>) -> (config: Config)
    requires
        file is Some ==> weights_can_be_added(file->0@),
    ensures
        config@ == (match file {
            Some(file) => resolved(file@),
            None => default_settings(),
        }),
        usable(config@),
{
    let defaults = default_config();
    let ghost given = file;
    let config = match file {
        Some(file) => {
            let runner = match file.runner {
                Some(r) => Runner {
                    default_command: keep_text(r.default_command, defaults.runner.default_command),
                    default_command_args: match r.default_command_args {
                        Some(args) => args,
                        None => defaults.runner.default_command_args,
                    },
                    login_command: keep_text(r.login_command, defaults.runner.login_command),
                },
                None => defaults.runner,
            };
            let sessions = match file.sessions {
                Some(s) => resolve_sessions(s),
                None => defaults.sessions,
            };
            Config { runner, sessions }
        },
        None => defaults,
    };
    proof {
        match given {
            Some(file) => every_file_makes_a_usable_config(file@),
            None => {
                empty_file_makes_the_defaults();
                every_file_makes_a_usable_config(nothing_set());
            },
        }
    }
    config
}

/// The program of a command and its arguments: the words of `cmd`. A command without words is
/// refused.
pub fn split_command(cmd: &str) -> (r: Result<(String, Vec<String>), Error>)
    ensures
        match r {
            Ok((bin, args)) => !blank(cmd@) && words(cmd@) == seq![bin@] + texts(args@),
            Err(e) => blank(cmd@) && e.says(ErrorKind::InvalidInput, "empty command"@),
        },
{
    let mut fields = split_words(cmd);
    proof {
        words_of_blank(cmd@);
    }
    if fields.len() == 0 {
        return Err(Error::new(ErrorKind::InvalidInput, "empty command"));
    }
    let ghost all = fields@;
    let bin = fields.remove(0);
    proof {
        assert(texts(all) =~= seq![bin@] + texts(fields@));
    }
    Ok((bin, fields))
}

/// The directory of the program below the home directory; `None` stands for a home that is not
/// known.
pub fn agentlb_root(home: Option<&str>) -> (r: Result<String, Error>)
    ensures
        match r {
            Ok(root) => home is Some && root@ == path_below(home->0@, ".agentlb"@),
            Err(e) => home is None && e.says(ErrorKind::NotFound, "HOME is not set"@),
        },
{
    match home {
        Some(home) => Ok(join_path(home, ".agentlb")),
        None => Err(Error::new(ErrorKind::NotFound, "HOME is not set")),
    }
}

/// The path of the configuration file.
pub fn config_path(home: Option<&str>) -> (r: Result<String, Error>)
    ensures
        match r {
            Ok(path) => home is Some && path@ == path_below(
                path_below(home->0@, ".agentlb"@),
                "config.toml"@,
            ),
            Err(e) => home is None && e.says(ErrorKind::NotFound, "HOME is not set"@),
        },
{
    match agentlb_root(home) {
        Ok(root) => Ok(join_path(root.as_str(), "config.toml")),
        Err(e) => Err(e),
    }
}

/// The text of the configuration file `path`, which holds `bytes`.
pub fn decode_config(path: &str, bytes: &[u8]) -> (r: Result<String, Error>)
    ensures
        match r {
            Ok(text) => vstd::utf8::valid_utf8(bytes@) && text@ == vstd::utf8::decode_utf8(bytes@),
            Err(e) => !vstd::utf8::valid_utf8(bytes@) && e.says(
                ErrorKind::InvalidData,
                "config is not valid UTF-8 ("@ + path@ + "): "@ + utf8_fault(bytes@),
            ),
        },
{
    match decode_text(bytes) {
        Ok(text) => Ok(text),
        Err(fault) => Err(encoding_failure(path, fault.as_str())),
    }
}

/// The error for a configuration file `path` that holds no UTF-8; `detail` says why.
pub fn encoding_failure(path: &str, detail: &str) -> (e: Error)
    ensures
        e.says(
            ErrorKind::InvalidData,
            "config is not valid UTF-8 ("@ + path@ + "): "@ + detail@,
        ),
{
    let message = "config is not valid UTF-8 (".to_string().concat(path).concat("): ").concat(
        detail,
    );
    Error { kind: ErrorKind::InvalidData, message }
}

/// The error for a configuration file `path` whose text is not understood; `detail` says why.
pub fn parse_failure(path: &str, detail: &str) -> (e: Error)
    ensures
        e.says(ErrorKind::InvalidData, "parse config "@ + path@ + ": "@ + detail@),
{
    let message = "parse config ".to_string().concat(path).concat(": ").concat(detail);
    Error { kind: ErrorKind::InvalidData, message }
}

/// The configuration file with the content `content`.
pub fn write_config_file(path: &str, content: Vec<u8>) -> (r: Result<FileWrite, Error>)
    ensures
        match r {
            Ok(write) => plain_name(file_part(path@)) && writes(
                write,
                path@,
                content@,
                None,
                PRIVATE_FILE_MODE,
            ),
            Err(e) => !plain_name(file_part(path@)) && e.says(
                ErrorKind::Other,
                "invalid config path"@,
            ),
        },
{
    plan_write(path, content, None, PRIVATE_FILE_MODE, "invalid config path")
}

/// The configuration file with the content `content`, unless there is one.
pub fn ensure_default_config_file(
    exists: bool,
    path: &str,
    content: Vec<u8>,
) -> (r: Result<Option<FileWrite>, Error>)
    ensures
        match r {
            Ok(None) => exists,
            Ok(Some(write)) => !exists && plain_name(file_part(path@)) && writes(
                write,
                path@,
                content@,
                None,
                PRIVATE_FILE_MODE,
            ),
            Err(e) => !exists && !plain_name(file_part(path@)) && e.says(
                ErrorKind::Other,
                "invalid config path"@,
            ),
        },
{
    if exists {
        return Ok(None);
    }
    match write_config_file(path, content) {
        Ok(write) => Ok(Some(write)),
        Err(e) => Err(e),
    }
}

} // verus!
