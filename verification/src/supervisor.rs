//! The supervisor as seen from outside: whether it runs, and how it is started and stopped.
use vstd::prelude::*;

use crate::error::{Error, ErrorKind};
use crate::numbers::{all_digits, decimal, decimal_reads_back, is_digit, numeral, read_signed};
use crate::numbers::{read_unsigned, signed_decimal, signed_value, unsigned_value, write_signed};
use crate::text::{same_text, trim_back, trim_front, trim_text, trimmed, white_space};

verus! {

/// How long to wait for a supervisor that was started, in milliseconds, unless set otherwise.
pub const DEFAULT_DAEMON_START_TIMEOUT_MS: u64 = 3000;

/// The pause between two looks at the supervisor, in milliseconds.
pub const SUPERVISOR_PAUSE_MS: u64 = 100;

/// How long to wait for a supervisor to stop, in milliseconds.
pub const STOP_TIMEOUT_MS: u64 = 3000;

// ---------------------------------------------------------------------------
// Settings from the environment
// ---------------------------------------------------------------------------
/// The number that the value of a variable denotes, or `default` where it denotes none up to
/// `limit` or the variable is not set.
pub open spec fn number_or(value: Option<&str>, limit: int, default: int) -> int {
    match value {
        Some(s) => match unsigned_value(s@, limit) {
            Some(n) => n,
            None => default,
        },
        None => default,
    }
}

/// A number from the environment.
pub fn env_u64(value: Option<&str>, default: u64) -> (r: u64)
    ensures
        r == number_or(value, u64::MAX as int, default as int),
{
    match value {
        Some(s) => match read_unsigned(s, u64::MAX) {
            Some(n) => n,
            None => default,
        },
        None => default,
    }
}

/// A count from the environment.
pub fn env_usize(value: Option<&str>, default: usize) -> (r: usize)
    ensures
        r == number_or(value, usize::MAX as int, default as int),
{
    match value {
        Some(s) => match read_unsigned(s, usize::MAX as u64) {
            Some(n) => n as usize,
            None => default,
        },
        None => default,
    }
}

/// How long to wait for a supervisor that was started, given the value of the variable for it.
pub fn daemon_start_timeout_ms(value: Option<&str>) -> (r: u64)
    ensures
        r == number_or(value, u64::MAX as int, 3000),
{
    env_u64(value, DEFAULT_DAEMON_START_TIMEOUT_MS)
}

// ---------------------------------------------------------------------------
// The file with the number of the process
// ---------------------------------------------------------------------------
/// The number of a process that `text` denotes.
pub open spec fn pid_of(text: Seq<char>) -> Option<int> {
    signed_value(trimmed(text))
}

/// The number of a process that the text of a file denotes; `None` stands for a file that could
/// not be read.
pub open spec fn pid_in(text: Option<&str>) -> Option<int> {
    match text {
        Some(s) => pid_of(s@),
        None => None,
    }
}

/// The number of a process that the text of a file denotes.
pub fn read_pid(text: Option<&str>) -> (r: Option<i32>)
    ensures
        match r {
            Some(pid) => pid_in(text) == Some(pid as int),
            None => pid_in(text) is None,
        },
{
    match text {
        Some(s) => read_signed(trim_text(s).as_str()),
        None => None,
    }
}

/// The text of the file for the process `pid`.
pub fn pid_text(pid: i32) -> (r: String)
    ensures
        r@ == signed_decimal(pid as int) + "\n"@,
{
    write_signed(pid as i64).concat("\n")
}

/// Whether a process is alive, given whether the empty signal reached it: a number that is not
/// positive stands for no process.
pub fn is_pid_alive(pid: i32, reached: bool) -> (r: bool)
    ensures
        r == (pid > 0 && reached),
{
    pid > 0 && reached
}

/// What is known of the supervisor.
#[derive(Debug, Clone, Copy)]
pub struct SupervisorState {
    pub pid_in_file: Option<i32>,
    pub is_running: bool,
}

impl Default for SupervisorState {
    fn default() -> (r: Self)
        ensures
            r == (SupervisorState { pid_in_file: None, is_running: false }),
    {
        SupervisorState { pid_in_file: None, is_running: false }
    }
}

/// What is known of the supervisor, given the text of its file and whether the empty signal
/// reached the process that it names.
pub fn current_state(text: Option<&str>, reached: bool) -> (state: SupervisorState)
    ensures
        match state.pid_in_file {
            Some(pid) => pid_in(text) == Some(pid as int) && state.is_running == (pid > 0
                && reached),
            None => pid_in(text) is None && !state.is_running,
        },
{
    let pid = read_pid(text);
    let running = match pid {
        Some(pid) => is_pid_alive(pid, reached),
        None => false,
    };
    SupervisorState { pid_in_file: pid, is_running: running }
}

// ---------------------------------------------------------------------------
// Starting and stopping
// ---------------------------------------------------------------------------
/// What to do about the supervisor next.
#[derive(Debug, Clone, Copy, PartialEq, Eq, Structural)]
pub enum SupervisorStep {
    /// Nothing more.
    Done,
    /// Start it, then look again.
    Spawn,
    /// Look again after so many milliseconds.
    Pause(u64),
}

/// Whether the variable that disables the start of the supervisor is set.
pub open spec fn start_disabled(value: Option<&str>) -> bool {
    value is Some && value->0@ == "1"@
}

/// What is done next to see to it that the supervisor runs: at first, or while it is waited for, at
/// the time and up to the time that are given.
pub open spec fn next_step(
    disabled: bool,
    running: bool,
    waiting: Option<(u64, u64)>,
) -> SupervisorStep {
    match waiting {
        None => if disabled || running {
            SupervisorStep::Done
        } else {
            SupervisorStep::Spawn
        },
        Some((clock_ms, deadline_ms)) => if clock_ms >= deadline_ms || running {
            SupervisorStep::Done
        } else {
            SupervisorStep::Pause(SUPERVISOR_PAUSE_MS)
        },
    }
}

/// What to do so that the supervisor runs, given what is known of it. Before it was started
/// `waiting` is `None`; after that it holds the time on a clock that only runs forward and the
/// time on it at which the wait ends.
pub fn ensure_running(
    disabled: Option<&str>,
    state: &SupervisorState,
    waiting: Option<(u64, u64)>,
) -> (step: SupervisorStep)
    ensures
        step == next_step(start_disabled(disabled), state.is_running, waiting),
{
    match waiting {
        None => {
            let is_disabled = match disabled {
                Some(value) => same_text(value, "1"),
                None => false,
            };
            if is_disabled || state.is_running {
                SupervisorStep::Done
            } else {
                SupervisorStep::Spawn
            }
        },
        Some((clock_ms, deadline_ms)) => {
            if clock_ms >= deadline_ms || state.is_running {
                SupervisorStep::Done
            } else {
                SupervisorStep::Pause(SUPERVISOR_PAUSE_MS)
            }
        },
    }
}

/// What is done about the supervisor on command.
#[derive(Debug, Clone, Copy, PartialEq, Eq, Structural)]
pub enum SupervisorCommand {
    Start,
    Restart,
    Stop,
}

/// What a command asks for: a line to print, the process to stop first, and whether to start a
/// supervisor then.
#[derive(Debug)]
pub struct SupervisorPlan {
    pub report: String,
    pub stop: Option<i32>,
    pub start: bool,
}

/// The words for what is known of the supervisor.
pub open spec fn state_text(state: SupervisorState) -> Seq<char> {
    match (state.pid_in_file, state.is_running) {
        (Some(pid), true) => "supervisor is running (pid "@ + signed_decimal(pid as int) + ")"@,
        _ => "supervisor is not running"@,
    }
}

/// The number of the process that a command stops, if any.
pub open spec fn to_stop(command: SupervisorCommand, state: SupervisorState) -> Option<i32> {
    if command != SupervisorCommand::Start && state.is_running {
        state.pid_in_file
    } else {
        None
    }
}

/// Whether a command starts a supervisor.
pub open spec fn to_start(command: SupervisorCommand, state: SupervisorState) -> bool {
    match command {
        SupervisorCommand::Start => !state.is_running,
        SupervisorCommand::Restart => true,
        SupervisorCommand::Stop => false,
    }
}

/// What a command asks for, given what is known of the supervisor: to start or to restart ends
/// with one supervisor, which is not started where it runs already and is not to be stopped;
/// only a process that runs is stopped.
pub fn supervisor_plan(command: SupervisorCommand, state: &SupervisorState) -> (plan:
    SupervisorPlan)
    ensures
        plan.report@ == state_text(*state),
        plan.stop == to_stop(command, *state),
        plan.start == to_start(command, *state),
{
    let report = match (state.pid_in_file, state.is_running) {
        (Some(pid), true) => "supervisor is running (pid ".to_string().concat(
            write_signed(pid as i64).as_str(),
        ).concat(")"),
        _ => "supervisor is not running".to_string(),
    };
    let stop = match command {
        SupervisorCommand::Start => None,
        _ => if state.is_running {
            state.pid_in_file
        } else {
            None
        },
    };
    let start = match command {
        SupervisorCommand::Start => !state.is_running,
        SupervisorCommand::Restart => true,
        SupervisorCommand::Stop => false,
    };
    SupervisorPlan { report, stop, start }
}

/// Whether a process that was told to stop has done so: `Ok(None)` once it has, a pause in
/// milliseconds while there is time left, and an error after that.
pub fn await_stop(pid: i32, alive: bool, clock_ms: u64, deadline_ms: u64) -> (r: Result<
    Option<u64>,
    Error,
>)
    ensures
        match r {
            Ok(None) => !alive,
            Ok(Some(ms)) => alive && clock_ms < deadline_ms && ms == SUPERVISOR_PAUSE_MS,
            Err(e) => alive && clock_ms >= deadline_ms && e.says(
                ErrorKind::Other,
                "supervisor did not stop (pid "@ + signed_decimal(pid as int) + ")"@,
            ),
        },
{
    if !alive {
        return Ok(None);
    }
    if clock_ms < deadline_ms {
        return Ok(Some(SUPERVISOR_PAUSE_MS));
    }
    let message = "supervisor did not stop (pid ".to_string().concat(
        write_signed(pid as i64).as_str(),
    ).concat(")");
    Err(Error { kind: ErrorKind::Other, message })
}

/// The help on the commands for the supervisor.
pub open spec fn help_text() -> Seq<char> {
    "usage: agentlb supervisor <command>\n\ncommands:\n  start --background  start the supervisor in the background if it does not run\n  restart             stop the supervisor if it runs and start a new one\n  stop                stop the supervisor if it runs"@
}

/// The help on the commands for the supervisor.
pub fn supervisor_help() -> (r: String)
    ensures
        r@ == help_text(),
{
    "usage: agentlb supervisor <command>\n\ncommands:\n  start --background  start the supervisor in the background if it does not run\n  restart             stop the supervisor if it runs and start a new one\n  stop                stop the supervisor if it runs".to_string()
}

// ---------------------------------------------------------------------------
// Laws
// ---------------------------------------------------------------------------
/// The number of a process that was written into the file is read back from it.
pub proof fn pid_reads_back(pid: i32)
    ensures
        pid_of(signed_decimal(pid as int) + "\n"@) == Some(pid as int),
{
    reveal_strlit("\n");
    let n: nat = if pid < 0 {
        (-pid) as nat
    } else {
        pid as nat
    };
    let digits = decimal(n);
    decimal_reads_back(n);
    assert(numeral(digits) == Some(n as int));
    let s = signed_decimal(pid as int);
    assert(digits.len() > 0 && all_digits(digits));
    assert(is_digit(digits.last()));
    assert(is_digit(digits[0]));
    assert(s.last() == digits.last());
    assert(!white_space(s.last()));
    assert(!white_space(s[0]));
    let t = s + "\n"@;
    assert(t[0] == s[0]);
    assert(trim_front(t) == t);
    assert(t.drop_last() =~= s);
    assert(trim_back(t) == trim_back(s));
    assert(trim_back(s) == s);
    assert(trimmed(t) == s);
    if pid < 0 {
        assert(s.skip(1) =~= digits);
    }
}

/// A variable counts where it is a number up to the limit; where it is not set, or is something
/// else, the default counts.
pub proof fn numbers_count_and_all_else_is_the_default(
    value: &str,
    limit: int,
    default: int,
    n: int,
)
    ensures
        number_or(None, limit, default) == default,
        numeral(value@) == Some(n) && n <= limit ==> number_or(Some(value), limit, default) == n,
        numeral(value@) == Some(n) && n > limit ==> number_or(Some(value), limit, default)
            == default,
        numeral(value@) is None && (value@.len() == 0 || value@[0] != '+') ==> number_or(
            Some(value),
            limit,
            default,
        ) == default,
{
    if numeral(value@) is Some {
        assert(is_digit(value@[0]));
    }
}

/// White space around a number does not count: the number of a process is what stands between it.
pub proof fn the_number_of_a_process_is_trimmed(text: Seq<char>, other: Seq<char>)
    requires
        trimmed(text) == trimmed(other),
    ensures
        pid_of(text) == pid_of(other),
        trimmed(text) == text ==> pid_of(text) == signed_value(text),
{
}

/// The supervisor is kept from starting by a one and by nothing else.
pub proof fn only_a_one_keeps_the_supervisor_from_starting(value: &str)
    ensures
        !start_disabled(None),
        start_disabled(Some(value)) <==> value@.len() == 1 && value@[0] == '1',
{
    reveal_strlit("1");
    if value@.len() == 1 && value@[0] == '1' {
        assert(value@ =~= "1"@);
    }
}

/// The supervisor is said to run where its number is known and it runs, and the number is said.
pub proof fn a_running_supervisor_is_named(state: SupervisorState, pid: i32)
    ensures
        state.is_running && state.pid_in_file == Some(pid) ==> state_text(state)
            == "supervisor is running (pid "@ + signed_decimal(pid as int) + ")"@,
        !state.is_running || state.pid_in_file is None ==> state_text(state)
            == "supervisor is not running"@,
{
}

/// A supervisor is spawned exactly where none runs, it may be started and it is not waited for yet;
/// one that runs is left alone; and the wait for it is a pause again and again until its time is
/// over.
pub proof fn one_supervisor_is_spawned(
    disabled: bool,
    running: bool,
    clock_ms: u64,
    deadline_ms: u64,
)
    ensures
        next_step(disabled, running, None) is Spawn <==> !disabled && !running,
        next_step(disabled, running, None) is Done <==> disabled || running,
        next_step(disabled, true, Some((clock_ms, deadline_ms))) is Done,
        clock_ms >= deadline_ms ==> next_step(
            disabled,
            running,
            Some((clock_ms, deadline_ms)),
        ) is Done,
        clock_ms < deadline_ms && !running ==> next_step(
            disabled,
            running,
            Some((clock_ms, deadline_ms)),
        ) == SupervisorStep::Pause(100),
{
}

/// To start is to start where none runs; to stop is to stop the one that runs; and to restart is to
/// stop the one that runs and start a new one in any case. Without one that runs none is stopped.
pub proof fn a_restart_is_a_stop_and_a_start(state: SupervisorState)
    ensures
        to_stop(SupervisorCommand::Start, state) is None,
        to_start(SupervisorCommand::Start, state) <==> !state.is_running,
        state.is_running ==> to_stop(SupervisorCommand::Stop, state) == state.pid_in_file,
        !state.is_running ==> to_stop(SupervisorCommand::Stop, state) is None,
        !to_start(SupervisorCommand::Stop, state),
        to_stop(SupervisorCommand::Restart, state) == to_stop(SupervisorCommand::Stop, state),
        to_start(SupervisorCommand::Restart, state),
{
}

} // verus!
