//! The command line: what its arguments ask for, and which commands are run.
use vstd::prelude::*;

use crate::config::{split_command, Config, ConfigView};
use crate::error::{Error, ErrorKind};
use crate::text::{after_prefix, begins_with, blank, copy_texts, is_blank, join_texts, joined};
use crate::text::{joining_goes_part_by_part, same_text, solid_ends_are_kept, texts, trim_text};
use crate::text::{trimmed, trimming_keeps_the_words, trimming_takes_the_white_space_at_the_ends};
use crate::text::{white_space, white_space_separates_words, words, words_of_blank};

verus! {

/// The exit code for success.
pub const EXIT_OK: i32 = 0;

/// The exit code for an error of the run, the configuration or the state.
pub const EXIT_GENERIC: i32 = 1;

/// The exit code for arguments that are not understood.
pub const EXIT_USAGE: i32 = 2;

/// The exit code that is reserved for an alias that is not found.
pub const EXIT_ALIAS_NOT_FOUND: i32 = 3;

/// The exit code where there is no session to pick.
pub const EXIT_NO_SESSIONS: i32 = 4;

/// The exit code for a login that failed.
pub const EXIT_LOGIN_FAILED: i32 = 5;

// ---------------------------------------------------------------------------
// Arguments
// ---------------------------------------------------------------------------
/// What is asked for.
#[derive(Debug, Clone, Copy, PartialEq, Eq, Structural)]
pub enum Mode {
    Root,
    New,
    Rr,
    Last,
    List,
    ConfigInit,
    Supervisor,
    SupervisorStart,
    SupervisorRestart,
    SupervisorStop,
    SupervisorDaemon,
}

/// What the arguments say.
#[derive(Debug)]
pub struct CliArgs {
    pub mode: Mode,
    pub alias: String,
    pub cmd: String,
    pub login_cmd: String,
    pub passthrough: Vec<String>,
}

pub struct CliView {
    pub mode: Mode,
    pub alias: Seq<char>,
    pub cmd: Seq<char>,
    pub login_cmd: Seq<char>,
    pub passthrough: Seq<Seq<char>>,
}

impl View for CliArgs {
    type V = CliView;

    open spec fn view(&self) -> CliView {
        CliView {
            mode: self.mode,
            alias: self.alias@,
            cmd: self.cmd@,
            login_cmd: self.login_cmd@,
            passthrough: texts(self.passthrough@),
        }
    }
}

/// What no arguments say.
pub open spec fn no_arguments() -> CliView {
    CliView { mode: Mode::Root, alias: ""@, cmd: ""@, login_cmd: ""@, passthrough: seq![] }
}

impl Default for CliArgs {
    fn default() -> (r: Self)
        ensures
            r@ == no_arguments(),
    {
        let r = CliArgs {
            mode: Mode::Root,
            alias: "".to_string(),
            cmd: "".to_string(),
            login_cmd: "".to_string(),
            passthrough: Vec::new(),
        };
        proof {
            assert(texts(r.passthrough@) =~= seq![]);
        }
        r
    }
}

/// What the first of the remaining arguments does.
pub enum Reading {
    /// It ends the arguments; this is what they say.
    Over(CliView),
    /// It is an error.
    Wrong(Seq<char>),
    /// This is what the arguments say so far, and so many are read.
    Further(CliView, int),
}

/// The words of a command for the supervisor, in `rest` behind the word `supervisor`.
pub open spec fn read_supervisor(out: CliView, rest: Seq<Seq<char>>) -> Reading {
    if rest.len() == 1 || rest[1] == "--"@ {
        Reading::Further(CliView { mode: Mode::Supervisor, ..out }, 1)
    } else if rest[1] == "start"@ && rest.len() > 2 && rest[2] == "--background"@ {
        Reading::Further(CliView { mode: Mode::SupervisorStart, ..out }, 3)
    } else if rest[1] == "restart"@ {
        Reading::Further(CliView { mode: Mode::SupervisorRestart, ..out }, 2)
    } else if rest[1] == "stop"@ {
        Reading::Further(CliView { mode: Mode::SupervisorStop, ..out }, 2)
    } else if rest[1] == "daemon"@ {
        Reading::Further(CliView { mode: Mode::SupervisorDaemon, ..out }, 2)
    } else {
        Reading::Wrong("usage: agentlb supervisor [start --background|restart|stop]"@)
    }
}

/// What the first of the arguments `rest` does, given what those before it say.
pub open spec fn read_one(out: CliView, rest: Seq<Seq<char>>) -> Reading {
    let t = rest[0];
    if t == "--"@ {
        Reading::Over(CliView { passthrough: out.passthrough + rest.skip(1), ..out })
    } else if t == "new"@ || t == "rr"@ || t == "last"@ {
        if out.mode == Mode::Root {
            let mode = if t == "new"@ {
                Mode::New
            } else if t == "rr"@ {
                Mode::Rr
            } else {
                Mode::Last
            };
            Reading::Further(CliView { mode, ..out }, 1)
        } else {
            Reading::Wrong("invalid usage"@)
        }
    } else if t == "config"@ {
        if out.mode == Mode::Root && rest.len() > 1 && rest[1] == "init"@ {
            Reading::Further(CliView { mode: Mode::ConfigInit, ..out }, 2)
        } else {
            Reading::Wrong("usage: agentlb config init"@)
        }
    } else if t == "list"@ && out.mode == Mode::Root {
        Reading::Further(CliView { mode: Mode::List, ..out }, 1)
    } else if t == "supervisor"@ && out.mode == Mode::Root {
        read_supervisor(out, rest)
    } else if t == "--cmd"@ {
        if rest.len() > 1 {
            Reading::Further(CliView { cmd: rest[1], ..out }, 2)
        } else {
            Reading::Wrong("--cmd requires a value"@)
        }
    } else if t == "--login-cmd"@ {
        if rest.len() > 1 {
            Reading::Further(CliView { login_cmd: rest[1], ..out }, 2)
        } else {
            Reading::Wrong("--login-cmd requires a value"@)
        }
    } else if "--cmd="@.is_prefix_of(t) {
        Reading::Further(CliView { cmd: t.skip("--cmd="@.len() as int), ..out }, 1)
    } else if "--login-cmd="@.is_prefix_of(t) {
        Reading::Further(CliView { login_cmd: t.skip("--login-cmd="@.len() as int), ..out }, 1)
    } else if "-"@.is_prefix_of(t) {
        Reading::Wrong("unknown flag: "@ + t)
    } else if out.mode == Mode::New && out.alias.len() == 0 {
        Reading::Further(CliView { alias: t, ..out }, 1)
    } else {
        Reading::Wrong("unexpected argument: "@ + t)
    }
}

/// What the arguments `rest` say, given what those before them say, or what is wrong with them.
pub open spec fn read_all(out: CliView, rest: Seq<Seq<char>>) -> Result<CliView, Seq<char>>
    decreases rest.len(),
{
    if rest.len() == 0 {
        Ok(out)
    } else {
        match read_one(out, rest) {
            Reading::Over(view) => Ok(view),
            Reading::Wrong(message) => Err(message),
            Reading::Further(view, n) => if 0 < n <= rest.len() {
                read_all(view, rest.skip(n))
            } else {
                Ok(view)
            },
        }
    }
}

/// What one argument does to what the arguments say.
enum Step {
    Over,
    Wrong(Error),
    Further(usize),
}

fn wrong(message: &str) -> (step: Step)
    ensures
        step is Wrong,
        step->Wrong_0.says(ErrorKind::InvalidInput, message@),
{
    Step::Wrong(Error::new(ErrorKind::InvalidInput, message))
}

fn parse_supervisor(out: &mut CliArgs, args: &[String], i: usize) -> (step: Step)
    requires
        i < args@.len(),
    ensures
        match (step, read_supervisor(old(out)@, texts(args@).skip(i as int))) {
            (Step::Wrong(e), Reading::Wrong(message)) => e.says(ErrorKind::InvalidInput, message),
            (Step::Further(n), Reading::Further(view, m)) => n == m && final(out)@ == view && i + n
                <= args@.len(),
            _ => false,
        },
{
    let ghost rest = texts(args@).skip(i as int);
    proof {
        if i + 1 < args@.len() {
            assert(rest[1] == args@[i + 1]@);
        }
        if i + 2 < args@.len() {
            assert(rest[2] == args@[i + 2]@);
        }
    }
    if args.len() - i == 1 || same_text(args[i + 1].as_str(), "--") {
        out.mode = Mode::Supervisor;
        return Step::Further(1);
    }
    let word = args[i + 1].as_str();
    if same_text(word, "start") && args.len() - i > 2 && same_text(
        args[i + 2].as_str(),
        "--background",
    ) {
        out.mode = Mode::SupervisorStart;
        return Step::Further(3);
    }
    if same_text(word, "restart") {
        out.mode = Mode::SupervisorRestart;
    } else if same_text(word, "stop") {
        out.mode = Mode::SupervisorStop;
    } else if same_text(word, "daemon") {
        out.mode = Mode::SupervisorDaemon;
    } else {
        return wrong("usage: agentlb supervisor [start --background|restart|stop]");
    }
    Step::Further(2)
}

fn parse_one(out: &mut CliArgs, args: &[String], i: usize) -> (step: Step)
    requires
        i < args@.len(),
    ensures
        match (step, read_one(old(out)@, texts(args@).skip(i as int))) {
            (Step::Over, Reading::Over(view)) => final(out)@ == view,
            (Step::Wrong(e), Reading::Wrong(message)) => e.says(ErrorKind::InvalidInput, message),
            (Step::Further(n), Reading::Further(view, m)) => n == m && final(out)@ == view && 0 < n
                && i + n <= args@.len(),
            _ => false,
        },
{
    let ghost rest = texts(args@).skip(i as int);
    proof {
        assert(rest[0] == args@[i as int]@);
        if i + 1 < args@.len() {
            assert(rest[1] == args@[i + 1]@);
        }
    }
    let t = args[i].as_str();
    if same_text(t, "--") {
        let ghost first = texts(out.passthrough@);
        let mut more: Vec<String> = copy_texts(vstd::slice::slice_subrange(args, i + 1, args.len()));
        let ghost second = texts(more@);
        out.passthrough.append(&mut more);
        proof {
            assert(second =~= rest.skip(1));
            assert(texts(out.passthrough@) =~= first + second);
        }
        return Step::Over;
    }
    if same_text(t, "new") || same_text(t, "rr") || same_text(t, "last") {
        if out.mode != Mode::Root {
            return wrong("invalid usage");
        }
        out.mode = if same_text(t, "new") {
            Mode::New
        } else if same_text(t, "rr") {
            Mode::Rr
        } else {
            Mode::Last
        };
        return Step::Further(1);
    }
    if same_text(t, "config") {
        if out.mode != Mode::Root || i + 1 >= args.len() || !same_text(
            args[i + 1].as_str(),
            "init",
        ) {
            return wrong("usage: agentlb config init");
        }
        out.mode = Mode::ConfigInit;
        return Step::Further(2);
    }
    if same_text(t, "list") && out.mode == Mode::Root {
        out.mode = Mode::List;
        return Step::Further(1);
    }
    if same_text(t, "supervisor") && out.mode == Mode::Root {
        return parse_supervisor(out, args, i);
    }
    if same_text(t, "--cmd") {
        if i + 1 >= args.len() {
            return wrong("--cmd requires a value");
        }
        out.cmd = args[i + 1].clone();
        return Step::Further(2);
    }
    if same_text(t, "--login-cmd") {
        if i + 1 >= args.len() {
            return wrong("--login-cmd requires a value");
        }
        out.login_cmd = args[i + 1].clone();
        return Step::Further(2);
    }
    if let Some(v) = after_prefix(t, "--cmd=") {
        out.cmd = v;
        return Step::Further(1);
    }
    if let Some(v) = after_prefix(t, "--login-cmd=") {
        out.login_cmd = v;
        return Step::Further(1);
    }
    if begins_with(t, "-") {
        return wrong("unknown flag: ".to_string().concat(t).as_str());
    }
    if out.mode == Mode::New && out.alias.as_str().is_empty() {
        out.alias = args[i].clone();
        return Step::Further(1);
    }
    wrong("unexpected argument: ".to_string().concat(t).as_str())
}

/// What the arguments say.
pub fn parse_cli(args: &[String]) -> (r: Result<CliArgs, Error>)
    ensures
        match r {
            Ok(out) => read_all(no_arguments(), texts(args@)) == Ok::<CliView, Seq<char>>(out@),
            Err(e) => {
                let read = read_all(no_arguments(), texts(args@));
                read is Err && e.says(ErrorKind::InvalidInput, read->Err_0)
            },
        },
{
    let mut out = CliArgs::default();
    let mut i: usize = 0;
    let ghost all = texts(args@);
    proof {
        assert(all.skip(0) =~= all);
    }
    while i < args.len()
        invariant
            i <= args@.len(),
            all == texts(args@),
            read_all(no_arguments(), all) == read_all(out@, all.skip(i as int)),
        decreases args@.len() - i,
    {
        let ghost earlier = out@;
        let step = parse_one(&mut out, args, i);
        match step {
            Step::Over => {
                return Ok(out);
            },
            Step::Wrong(e) => {
                return Err(e);
            },
            Step::Further(n) => {
                proof {
                    assert(all.skip(i as int).skip(n as int) =~= all.skip(i + n));
                }
                i += n;
            },
        }
    }
    Ok(out)
}

/// The empty command line asks for the next session in turn.
pub proof fn no_arguments_mean_round_robin()
    ensures
        read_all(no_arguments(), seq![]) == Ok::<CliView, Seq<char>>(no_arguments()),
{
}

/// Whatever stands behind `--` is passed on as it is, and changes nothing else.
pub proof fn arguments_behind_the_dashes_are_passed_on(out: CliView, rest: Seq<Seq<char>>)
    requires
        rest.len() > 0,
        rest[0] == "--"@,
    ensures
        read_all(out, rest) == Ok::<CliView, Seq<char>>(
            CliView { passthrough: out.passthrough + rest.skip(1), ..out },
        ),
{
}

/// A flag that is not known is refused wherever it stands.
pub proof fn unknown_flags_are_refused(out: CliView, rest: Seq<Seq<char>>)
    requires
        rest.len() > 0,
        rest[0].len() > 0,
        rest[0][0] == '-',
        rest[0] != "--"@,
        rest[0] != "--cmd"@,
        rest[0] != "--login-cmd"@,
        !"--cmd="@.is_prefix_of(rest[0]),
        !"--login-cmd="@.is_prefix_of(rest[0]),
    ensures
        read_all(out, rest) == Err::<CliView, Seq<char>>("unknown flag: "@ + rest[0]),
{
    reveal_strlit("-");
    reveal_strlit("new");
    reveal_strlit("rr");
    reveal_strlit("last");
    reveal_strlit("config");
    reveal_strlit("list");
    reveal_strlit("supervisor");
    let t = rest[0];
    assert("-"@ =~= t.subrange(0, 1));
    assert("new"@[0] != '-' && "rr"@[0] != '-' && "last"@[0] != '-');
    assert("config"@[0] != '-' && "list"@[0] != '-' && "supervisor"@[0] != '-');
}

/// An alias is only taken where a new session was asked for.
pub proof fn aliases_belong_to_new(args: Seq<Seq<char>>)
    ensures
        ({
            let read = read_all(no_arguments(), args);
            read is Ok && read->Ok_0.alias.len() > 0 ==> read->Ok_0.mode == Mode::New
        }),
{
    reveal_strlit("");
    alias_stays_with_new(no_arguments(), args);
}

proof fn alias_stays_with_new(out: CliView, rest: Seq<Seq<char>>)
    requires
        out.alias.len() > 0 ==> out.mode == Mode::New,
    ensures
        ({
            let read = read_all(out, rest);
            read is Ok && read->Ok_0.alias.len() > 0 ==> read->Ok_0.mode == Mode::New
        }),
    decreases rest.len(),
{
    if rest.len() > 0 {
        match read_one(out, rest) {
            Reading::Further(view, n) => {
                if 0 < n <= rest.len() {
                    alias_stays_with_new(view, rest.skip(n));
                }
            },
            _ => {},
        }
    }
}

// ---------------------------------------------------------------------------
// Commands
// ---------------------------------------------------------------------------
/// The command to run: the one of the arguments, or else the one of the configuration with its
/// arguments.
pub open spec fn run_command_of(a: CliView, cfg: ConfigView) -> Seq<char> {
    if a.cmd.len() > 0 {
        a.cmd
    } else {
        trimmed(
            joined(seq![cfg.runner.default_command] + cfg.runner.default_command_args, " "@),
        )
    }
}

/// The command to log in: the one of the arguments, or else the one of the configuration, or
/// else the word `login` for the program of the command to run.
pub open spec fn login_command_of(a: CliView, cfg: ConfigView, run_cmd: Seq<char>) -> Seq<char> {
    if a.login_cmd.len() > 0 {
        a.login_cmd
    } else if !blank(cfg.runner.login_command) {
        cfg.runner.login_command
    } else if !blank(run_cmd) {
        words(run_cmd)[0] + " login"@
    } else {
        "codex login"@
    }
}

/// The command to run.
pub fn resolve_run_command(a: &CliArgs, cfg: &Config) -> (r: String)
    ensures
        r@ == run_command_of(a@, cfg@),
{
    if !a.cmd.as_str().is_empty() {
        return a.cmd.clone();
    }
    let mut parts: Vec<String> = Vec::new();
    parts.push(cfg.runner.default_command.clone());
    let ghost first = texts(parts@);
    let mut more = copy_texts(cfg.runner.default_command_args.as_slice());
    let ghost second = texts(more@);
    parts.append(&mut more);
    proof {
        assert(first =~= seq![cfg@.runner.default_command]);
        assert(texts(parts@) =~= first + second);
    }
    trim_text(join_texts(&parts, " ").as_str())
}

/// The command to log in, where `run_cmd` is the command to run.
pub fn resolve_login_command(a: &CliArgs, cfg: &Config, run_cmd: &str) -> (r: String)
    ensures
        r@ == login_command_of(a@, cfg@, run_cmd@),
{
    if !a.login_cmd.as_str().is_empty() {
        return a.login_cmd.clone();
    }
    if !is_blank(cfg.runner.login_command.as_str()) {
        return cfg.runner.login_command.clone();
    }
    match split_command(run_cmd) {
        Ok((bin, _)) => bin.concat(" login"),
        Err(_) => "codex login".to_string(),
    }
}

proof fn arguments_differ()
    ensures
        "--"@ != "new"@ && "--"@ != "rr"@ && "--"@ != "last"@ && "--"@ != "config"@,
        "new"@ != "rr"@ && "new"@ != "last"@ && "rr"@ != "last"@,
        "config"@ != "--"@ && "config"@ != "new"@ && "config"@ != "rr"@ && "config"@ != "last"@,
        "list"@ != "--"@ && "list"@ != "new"@ && "list"@ != "rr"@ && "list"@ != "last"@ && "list"@
            != "config"@,
        "supervisor"@ != "--"@ && "supervisor"@ != "new"@ && "supervisor"@ != "rr"@ && "supervisor"@
            != "last"@ && "supervisor"@ != "config"@ && "supervisor"@ != "list"@,
        "--cmd"@.len() == 5 && "--login-cmd"@.len() == 11 && "--cmd="@.len() == 6
            && "--login-cmd="@.len() == 12 && "-"@.len() == 1 && "--"@.len() == 2,
        "--cmd"@[0] == '-' && "--login-cmd"@[0] == '-' && "--cmd="@[0] == '-' && "--login-cmd="@[0]
            == '-' && "-"@[0] == '-',
        "--cmd"@[2] == 'c' && "--login-cmd"@[2] == 'l' && "--cmd="@[2] == 'c' && "--login-cmd="@[2]
            == 'l' && "--cmd="@[5] == '=' && "--login-cmd="@[11] == '=',
        "new"@[0] != '-' && "rr"@[0] != '-' && "last"@[0] != '-' && "config"@[0] != '-'
            && "list"@[0] != '-' && "supervisor"@[0] != '-',
        "new"@.len() == 3 && "rr"@.len() == 2 && "last"@.len() == 4 && "config"@.len() == 6
            && "list"@.len() == 4 && "supervisor"@.len() == 10,
        "start"@ != "--"@ && "restart"@ != "--"@ && "stop"@ != "--"@ && "daemon"@ != "--"@,
        "start"@ != "restart"@ && "start"@ != "stop"@ && "start"@ != "daemon"@ && "restart"@
            != "stop"@ && "restart"@ != "daemon"@ && "stop"@ != "daemon"@,
{
    reveal_strlit("--");
    reveal_strlit("new");
    reveal_strlit("rr");
    reveal_strlit("last");
    reveal_strlit("config");
    reveal_strlit("list");
    reveal_strlit("supervisor");
    reveal_strlit("--cmd");
    reveal_strlit("--login-cmd");
    reveal_strlit("--cmd=");
    reveal_strlit("--login-cmd=");
    reveal_strlit("-");
    reveal_strlit("start");
    reveal_strlit("restart");
    reveal_strlit("stop");
    reveal_strlit("daemon");
    assert("new"@.len() == 3 && "rr"@.len() == 2 && "last"@.len() == 4 && "config"@.len() == 6);
    assert("list"@.len() == 4 && "supervisor"@.len() == 10 && "--"@.len() == 2);
    assert("list"@[1] == 'i' && "last"@[1] == 'a');
    assert("rr"@[0] == 'r' && "--"@[0] == '-');
    assert("start"@.len() == 5 && "restart"@.len() == 7 && "stop"@.len() == 4 && "daemon"@.len()
        == 6);
}

/// What is said of the arguments is said of their fields, each by its own name.
pub proof fn the_view_of_arguments_is_their_fields(args: CliArgs)
    ensures
        args@.mode == args.mode,
        args@.alias == args.alias@,
        args@.cmd == args.cmd@,
        args@.login_cmd == args.login_cmd@,
        args@.passthrough == texts(args.passthrough@),
        no_arguments().mode == Mode::Root,
        no_arguments().alias.len() == 0,
        no_arguments().cmd.len() == 0,
        no_arguments().login_cmd.len() == 0,
        no_arguments().passthrough.len() == 0,
{
    reveal_strlit("");
}

/// The flags for commands take the argument behind them or what stands behind their equals sign,
/// wherever they stand, and change nothing else; at the end they lack their value.
pub proof fn flags_take_their_value(out: CliView, value: Seq<char>, rest: Seq<Seq<char>>)
    ensures
        read_all(out, seq!["--cmd"@, value] + rest) == read_all(
            CliView { cmd: value, ..out },
            rest,
        ),
        read_all(out, seq!["--login-cmd"@, value] + rest) == read_all(
            CliView { login_cmd: value, ..out },
            rest,
        ),
        read_all(out, seq!["--cmd="@ + value] + rest) == read_all(
            CliView { cmd: value, ..out },
            rest,
        ),
        read_all(out, seq!["--login-cmd="@ + value] + rest) == read_all(
            CliView { login_cmd: value, ..out },
            rest,
        ),
        read_all(out, seq!["--cmd"@]) == Err::<CliView, Seq<char>>("--cmd requires a value"@),
        read_all(out, seq!["--login-cmd"@]) == Err::<CliView, Seq<char>>(
            "--login-cmd requires a value"@,
        ),
{
    arguments_differ();
    let a = seq!["--cmd"@, value] + rest;
    assert(a[0] == "--cmd"@ && a[1] == value);
    assert(a.skip(2) =~= rest);
    let b = seq!["--login-cmd"@, value] + rest;
    assert(b[0] == "--login-cmd"@ && b[1] == value);
    assert(b.skip(2) =~= rest);
    let x = "--cmd="@ + value;
    let c = seq![x] + rest;
    assert(c[0] == x);
    assert(c.skip(1) =~= rest);
    assert(x[0] == '-' && x[2] == 'c' && x[5] == '=');
    assert("--cmd="@.is_prefix_of(x)) by {
        assert(x.subrange(0, 6) =~= "--cmd="@);
    }
    assert(x.skip(6) =~= value);
    let y = "--login-cmd="@ + value;
    let d = seq![y] + rest;
    assert(d[0] == y);
    assert(d.skip(1) =~= rest);
    assert(y[0] == '-' && y[2] == 'l' && y[11] == '=');
    assert(!"--cmd="@.is_prefix_of(y)) by {
        if "--cmd="@.is_prefix_of(y) {
            assert(y.subrange(0, 6)[2] == y[2]);
        }
    }
    assert("--login-cmd="@.is_prefix_of(y)) by {
        assert(y.subrange(0, 12) =~= "--login-cmd="@);
    }
    assert(y.skip(12) =~= value);
}

/// The word for a command sets the mode and nothing else, where none was set; a second one is
/// refused.
pub proof fn commands_set_the_mode(out: CliView, rest: Seq<Seq<char>>)
    ensures
        out.mode == Mode::Root ==> {
            &&& read_all(out, seq!["new"@] + rest) == read_all(
                CliView { mode: Mode::New, ..out },
                rest,
            )
            &&& read_all(out, seq!["rr"@] + rest) == read_all(
                CliView { mode: Mode::Rr, ..out },
                rest,
            )
            &&& read_all(out, seq!["last"@] + rest) == read_all(
                CliView { mode: Mode::Last, ..out },
                rest,
            )
            &&& read_all(out, seq!["list"@] + rest) == read_all(
                CliView { mode: Mode::List, ..out },
                rest,
            )
            &&& read_all(out, seq!["config"@, "init"@] + rest) == read_all(
                CliView { mode: Mode::ConfigInit, ..out },
                rest,
            )
        },
        out.mode != Mode::Root ==> {
            &&& read_all(out, seq!["new"@] + rest) == Err::<CliView, Seq<char>>("invalid usage"@)
            &&& read_all(out, seq!["rr"@] + rest) == Err::<CliView, Seq<char>>("invalid usage"@)
            &&& read_all(out, seq!["last"@] + rest) == Err::<CliView, Seq<char>>("invalid usage"@)
            &&& read_all(out, seq!["config"@] + rest) == Err::<CliView, Seq<char>>(
                "usage: agentlb config init"@,
            )
        },
        rest.len() == 0 || rest[0] != "init"@ ==> read_all(out, seq!["config"@] + rest) == Err::<
            CliView,
            Seq<char>,
        >("usage: agentlb config init"@),
{
    arguments_differ();
    let a = seq!["new"@] + rest;
    assert(a[0] == "new"@ && a.skip(1) =~= rest);
    let b = seq!["rr"@] + rest;
    assert(b[0] == "rr"@ && b.skip(1) =~= rest);
    let c = seq!["last"@] + rest;
    assert(c[0] == "last"@ && c.skip(1) =~= rest);
    let d = seq!["list"@] + rest;
    assert(d[0] == "list"@ && d.skip(1) =~= rest);
    let e = seq!["config"@, "init"@] + rest;
    assert(e[0] == "config"@ && e[1] == "init"@ && e.skip(2) =~= rest);
    let f = seq!["config"@] + rest;
    assert(f[0] == "config"@);
    if rest.len() > 0 {
        assert(f[1] == rest[0]);
    }
}

/// The supervisor is told by the next word what to do, and shows its help without one; any other
/// word is refused.
pub proof fn the_supervisor_takes_a_word(out: CliView, rest: Seq<Seq<char>>)
    requires
        out.mode == Mode::Root,
    ensures
        read_all(out, seq!["supervisor"@]) == Ok::<CliView, Seq<char>>(
            CliView { mode: Mode::Supervisor, ..out },
        ),
        read_all(out, seq!["supervisor"@, "--"@] + rest) == Ok::<CliView, Seq<char>>(
            CliView {
                mode: Mode::Supervisor,
                passthrough: out.passthrough + rest,
                ..out
            },
        ),
        read_all(out, seq!["supervisor"@, "start"@, "--background"@] + rest) == read_all(
            CliView { mode: Mode::SupervisorStart, ..out },
            rest,
        ),
        read_all(out, seq!["supervisor"@, "restart"@] + rest) == read_all(
            CliView { mode: Mode::SupervisorRestart, ..out },
            rest,
        ),
        read_all(out, seq!["supervisor"@, "stop"@] + rest) == read_all(
            CliView { mode: Mode::SupervisorStop, ..out },
            rest,
        ),
        read_all(out, seq!["supervisor"@, "daemon"@] + rest) == read_all(
            CliView { mode: Mode::SupervisorDaemon, ..out },
            rest,
        ),
        rest.len() == 0 || rest[0] != "--background"@ ==> read_all(
            out,
            seq!["supervisor"@, "start"@] + rest,
        ) == Err::<CliView, Seq<char>>(
            "usage: agentlb supervisor [start --background|restart|stop]"@,
        ),
        rest.len() > 0 && rest[0] != "--"@ && rest[0] != "start"@ && rest[0] != "restart"@
            && rest[0] != "stop"@ && rest[0] != "daemon"@ ==> read_all(
            out,
            seq!["supervisor"@] + rest,
        ) == Err::<CliView, Seq<char>>(
            "usage: agentlb supervisor [start --background|restart|stop]"@,
        ),
{
    arguments_differ();
    let z = seq!["supervisor"@];
    assert(z.skip(1) =~= seq![]);
    assert(read_all(CliView { mode: Mode::Supervisor, ..out }, z.skip(1)) == Ok::<
        CliView,
        Seq<char>,
    >(CliView { mode: Mode::Supervisor, ..out }));
    let a = seq!["supervisor"@, "--"@] + rest;
    assert(a[0] == "supervisor"@ && a[1] == "--"@);
    let tail = a.skip(1);
    assert(tail[0] == "--"@);
    arguments_behind_the_dashes_are_passed_on(CliView { mode: Mode::Supervisor, ..out }, tail);
    assert(tail.skip(1) =~= rest);
    let b = seq!["supervisor"@, "start"@, "--background"@] + rest;
    assert(b[0] == "supervisor"@ && b[1] == "start"@ && b[2] == "--background"@);
    assert(b.skip(3) =~= rest);
    let c = seq!["supervisor"@, "restart"@] + rest;
    assert(c[0] == "supervisor"@ && c[1] == "restart"@ && c.skip(2) =~= rest);
    let d = seq!["supervisor"@, "stop"@] + rest;
    assert(d[0] == "supervisor"@ && d[1] == "stop"@ && d.skip(2) =~= rest);
    let e = seq!["supervisor"@, "daemon"@] + rest;
    assert(e[0] == "supervisor"@ && e[1] == "daemon"@ && e.skip(2) =~= rest);
    let g = seq!["supervisor"@, "start"@] + rest;
    assert(g[0] == "supervisor"@ && g[1] == "start"@);
    if rest.len() > 0 {
        assert(g[2] == rest[0]);
    }
    let f = seq!["supervisor"@] + rest;
    assert(f[0] == "supervisor"@);
    if rest.len() > 0 {
        assert(f[1] == rest[0]);
    }
}

/// The first word behind `new` that is no flag and no command is the alias; any other word that is
/// neither is refused.
pub proof fn the_first_free_word_is_the_alias(
    out: CliView,
    word: Seq<char>,
    rest: Seq<Seq<char>>,
)
    requires
        word.len() == 0 || word[0] != '-',
        word != "new"@,
        word != "rr"@,
        word != "last"@,
        word != "config"@,
        out.mode == Mode::Root ==> word != "list"@ && word != "supervisor"@,
    ensures
        out.mode == Mode::New && out.alias.len() == 0 ==> read_all(out, seq![word] + rest)
            == read_all(CliView { alias: word, ..out }, rest),
        out.mode != Mode::New || out.alias.len() > 0 ==> read_all(out, seq![word] + rest) == Err::<
            CliView,
            Seq<char>,
        >("unexpected argument: "@ + word),
{
    arguments_differ();
    reveal_strlit("--");
    let a = seq![word] + rest;
    assert(a[0] == word && a.skip(1) =~= rest);
    if "--cmd="@.is_prefix_of(word) {
        assert(word.subrange(0, 6)[0] == word[0]);
    }
    if "--login-cmd="@.is_prefix_of(word) {
        assert(word.subrange(0, 12)[0] == word[0]);
    }
    if "-"@.is_prefix_of(word) {
        assert(word.subrange(0, 1)[0] == word[0]);
    }
}

/// A command that is given is run as it is. Without one, the words of the default command are run,
/// and behind them those of its arguments in their order.
pub proof fn the_default_command_is_run_with_its_arguments(a: CliView, cfg: ConfigView)
    ensures
        a.cmd.len() > 0 ==> run_command_of(a, cfg) == a.cmd,
        a.cmd.len() == 0 && cfg.runner.default_command_args.len() == 0 ==> words(
            run_command_of(a, cfg),
        ) == words(cfg.runner.default_command),
        a.cmd.len() == 0 && cfg.runner.default_command_args.len() > 0 ==> words(
            run_command_of(a, cfg),
        ) == words(cfg.runner.default_command) + words(
            joined(cfg.runner.default_command_args, " "@),
        ),
        a.cmd.len() == 0 && run_command_of(a, cfg).len() > 0 ==> !white_space(
            run_command_of(a, cfg)[0],
        ) && !white_space(run_command_of(a, cfg).last()),
{
    if a.cmd.len() == 0 {
        let first = cfg.runner.default_command;
        let args = cfg.runner.default_command_args;
        let all = joined(seq![first] + args, " "@);
        trimming_keeps_the_words(all);
        trimming_takes_the_white_space_at_the_ends(all);
        if args.len() == 0 {
            assert(seq![first] + args =~= seq![first]);
            assert(joined(seq![first], " "@) == first);
        } else {
            joining_goes_part_by_part(seq![first], args, " "@);
            reveal_strlit(" ");
            assert(" "@ =~= seq![' ']);
            white_space_separates_words(first, ' ', joined(args, " "@));
        }
    }
}

/// The command to log in is the one that is given, else the one of the configuration, else the
/// program of the command to run with the word "login".
pub proof fn the_given_login_comes_first(a: CliView, cfg: ConfigView, run_cmd: Seq<char>)
    ensures
        a.login_cmd.len() > 0 ==> login_command_of(a, cfg, run_cmd) == a.login_cmd,
        a.login_cmd.len() == 0 && !blank(cfg.runner.login_command) ==> login_command_of(
            a,
            cfg,
            run_cmd,
        ) == cfg.runner.login_command,
        a.login_cmd.len() == 0 && blank(cfg.runner.login_command) && words(run_cmd).len() > 0
            ==> login_command_of(a, cfg, run_cmd) == words(run_cmd)[0] + " login"@,
        a.login_cmd.len() == 0 && blank(cfg.runner.login_command) && words(run_cmd).len() == 0
            ==> login_command_of(a, cfg, run_cmd) == "codex login"@,
{
    words_of_blank(run_cmd);
}

/// A default command and arguments that have no white space at their ends are run as they are, with
/// one space between each two.
pub proof fn the_default_command_is_run_as_it_is(a: CliView, cfg: ConfigView)
    requires
        a.cmd.len() == 0,
        cfg.runner.default_command.len() > 0,
        !white_space(cfg.runner.default_command[0]),
    ensures
        cfg.runner.default_command_args.len() == 0 && !white_space(
            cfg.runner.default_command.last(),
        ) ==> run_command_of(a, cfg) == cfg.runner.default_command,
        cfg.runner.default_command_args.len() > 0 && cfg.runner.default_command_args.last().len()
            > 0 && !white_space(cfg.runner.default_command_args.last().last()) ==> run_command_of(
            a,
            cfg,
        ) == cfg.runner.default_command + " "@ + joined(cfg.runner.default_command_args, " "@),
{
    let first = cfg.runner.default_command;
    let args = cfg.runner.default_command_args;
    let all = joined(seq![first] + args, " "@);
    if args.len() == 0 {
        assert(seq![first] + args =~= seq![first]);
        assert(joined(seq![first], " "@) == first);
        if !white_space(first.last()) {
            solid_ends_are_kept(first);
        }
    } else {
        joining_goes_part_by_part(seq![first], args, " "@);
        let rest = joined(args, " "@);
        if args.last().len() > 0 && !white_space(args.last().last()) {
            assert(rest.len() > 0 && rest.last() == args.last().last());
            assert(all.last() == rest.last());
            assert(all[0] == first[0]);
            solid_ends_are_kept(all);
        }
    }
}

} // verus!
