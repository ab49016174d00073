//! Sessions: which aliases are allowed, and the commands that are run in a session.
use vstd::prelude::*;

use crate::config::split_command;
use crate::error::{Error, ErrorKind};
use crate::numbers::{signed_decimal, write_signed};
use crate::path::path_below;
use crate::state::{Store, StoreView, PRIVATE_DIR_MODE};
use crate::text::{blank, copy_texts, texts, words};

verus! {

// ---------------------------------------------------------------------------
// Aliases
// ---------------------------------------------------------------------------
/// What is wrong with `pattern` as a regular expression, in words, or `None` where it is one.
/// This is what the error of `regex::Regex::new` shows.
pub uninterp spec fn regex_fault(pattern: Seq<char>) -> Option<Seq<char>>;

/// Whether the regular expression `pattern` matches somewhere in `text`, as
/// `regex::Regex::is_match` decides it.
pub uninterp spec fn regex_matches(pattern: Seq<char>, text: Seq<char>) -> bool;

/// `text` quoted and escaped as the `Debug` of `str` writes it.
pub uninterp spec fn debug_text(text: Seq<char>) -> Seq<char>;

/// `regex::Regex::new`, then `regex::Regex::is_match`: whether `pattern` matches somewhere in
/// `text`, or else what the error of the pattern shows. Both are named, not described.
#[verifier::external_body]
fn match_pattern(pattern: &str, text: &str) -> (r: Result<bool, String>)
    ensures
        match r {
            Ok(matched) => regex_fault(pattern@) is None && matched == regex_matches(
                pattern@,
                text@,
            ),
            Err(fault) => regex_fault(pattern@) == Some(fault@),
        },
{
    match regex::Regex::new(pattern) {
        Ok(re) => Ok(re.is_match(text)),
        Err(e) => Err(e.to_string()),
    }
}

/// The `Debug` of `str`, written by `format!`. The escapes are named, not described.
#[verifier::external_body]
fn write_debug(text: &str) -> (r: String)
    ensures
        r@ == debug_text(text@),
{
    format!("{:?}", text)
}

/// What is wrong with `alias`, given what became of matching it with `pattern`: the fault of the
/// pattern, or whether it matched.
pub open spec fn alias_fault(
    alias: Seq<char>,
    pattern: Seq<char>,
    fault: Option<Seq<char>>,
    matched: bool,
) -> Option<Seq<char>> {
    match fault {
        Some(fault) => Some(
            "invalid alias pattern "@ + debug_text(pattern) + ": "@ + fault,
        ),
        None => if matched {
            None
        } else {
            Some(
                "invalid alias "@ + debug_text(alias) + "; must match "@ + pattern
                    + " (example: a1)"@,
            )
        },
    }
}

/// What is wrong with `alias` by `pattern`.
pub open spec fn alias_refusal(alias: Seq<char>, pattern: Seq<char>) -> Option<Seq<char>> {
    alias_fault(alias, pattern, regex_fault(pattern), regex_matches(pattern, alias))
}

/// What is said of `alias`, given what became of matching it with `pattern`.
pub fn judge_alias(alias: &str, pattern: &str, verdict: Result<bool, String>) -> (r: Result<
    (),
    Error,
>)
    ensures
        ({
            let fault = alias_fault(
                alias@,
                pattern@,
                match verdict {
                    Ok(_) => None,
                    Err(fault) => Some(fault@),
                },
                verdict == Ok::<bool, String>(true),
            );
            match r {
                Ok(_) => fault is None,
                Err(e) => fault is Some && e.says(ErrorKind::InvalidInput, fault->0),
            }
        }),
{
    match verdict {
        Err(fault) => {
            let message = "invalid alias pattern ".to_string().concat(
                write_debug(pattern).as_str(),
            ).concat(": ").concat(fault.as_str());
            Err(Error { kind: ErrorKind::InvalidInput, message })
        },
        Ok(true) => Ok(()),
        Ok(false) => {
            let message = "invalid alias ".to_string().concat(write_debug(alias).as_str()).concat(
                "; must match ",
            ).concat(pattern).concat(" (example: a1)");
            Err(Error { kind: ErrorKind::InvalidInput, message })
        },
    }
}

/// Whether `alias` is allowed by `pattern`, a regular expression.
pub fn validate_alias(alias: &str, pattern: &str) -> (r: Result<(), Error>)
    ensures
        match r {
            Ok(_) => alias_refusal(alias@, pattern@) is None,
            Err(e) => alias_refusal(alias@, pattern@) is Some && e.says(
                ErrorKind::InvalidInput,
                alias_refusal(alias@, pattern@)->0,
            ),
        },
{
    let verdict = match_pattern(pattern, alias);
    judge_alias(alias, pattern, verdict)
}

// ---------------------------------------------------------------------------
// Directories
// ---------------------------------------------------------------------------
/// A directory to be made, and its mode.
#[derive(Debug)]
pub struct NewDirectory {
    pub path: String,
    pub mode: u32,
}

/// The directory to make for the session `alias`, unless there is one.
pub fn ensure_session_dir(st: &Store, alias: &str, exists: bool) -> (r: Option<NewDirectory>)
    ensures
        match r {
            Some(dir) => !exists && dir.path@ == path_below(st@.sessions_dir, alias@) && dir.mode
                == PRIVATE_DIR_MODE,
            None => exists,
        },
{
    if exists {
        return None;
    }
    Some(NewDirectory { path: st.session_dir(alias), mode: PRIVATE_DIR_MODE })
}

// ---------------------------------------------------------------------------
// Commands
// ---------------------------------------------------------------------------
/// A command to be run, and the directory that it finds in `CODEX_HOME`.
#[derive(Debug)]
pub struct CommandLine {
    pub bin: String,
    pub args: Vec<String>,
    pub codex_home: String,
}

/// Whether `line` runs the words of `cmd`, and behind them `more`, in the session `alias`.
pub open spec fn runs(
    line: CommandLine,
    cmd: Seq<char>,
    more: Seq<Seq<char>>,
    alias: Seq<char>,
    st: StoreView,
) -> bool {
    &&& seq![line.bin@] + texts(line.args@) == words(cmd) + more
    &&& line.codex_home@ == path_below(st.sessions_dir, alias)
}

/// The command `bin` with the arguments `args` in the session `alias`.
pub fn command_with_codex_home(bin: String, args: Vec<String>, alias: &str, st: &Store) -> (line:
    CommandLine)
    ensures
        line.bin@ == bin@,
        texts(line.args@) == texts(args@),
        line.codex_home@ == path_below(st@.sessions_dir, alias@),
{
    CommandLine { bin, args, codex_home: st.session_dir(alias) }
}

/// The command that logs in to the session `alias`.
pub fn run_login(login_cmd: &str, alias: &str, st: &Store) -> (r: Result<CommandLine, Error>)
    ensures
        match r {
            Ok(line) => !blank(login_cmd@) && runs(line, login_cmd@, seq![], alias@, st@),
            Err(e) => blank(login_cmd@) && e.says(ErrorKind::InvalidInput, "empty command"@),
        },
{
    run_command(login_cmd, &[], alias, st)
}

/// What is said of a login command that has ended, given whether it succeeded and the code that
/// it ended with, where it ended with one.
pub fn login_outcome(login_cmd: &str, success: bool, code: Option<i32>) -> (r: Result<(), Error>)
    ensures
        match r {
            Ok(_) => success,
            Err(e) => !success && e.says(
                ErrorKind::Other,
                match code {
                    Some(code) => "login command failed: "@ + debug_text(login_cmd@) + " (exit "@
                        + signed_decimal(code as int) + ")"@,
                    None => "login command failed: "@ + debug_text(login_cmd@),
                },
            ),
        },
{
    if success {
        return Ok(());
    }
    let told = "login command failed: ".to_string().concat(write_debug(login_cmd).as_str());
    let message = match code {
        Some(code) => told.concat(" (exit ").concat(write_signed(code as i64).as_str()).concat(")"),
        None => told,
    };
    Err(Error { kind: ErrorKind::Other, message })
}

/// The command that is run in the session `alias`: `run_cmd` with the arguments `passthrough`
/// behind its own.
pub fn run_command(run_cmd: &str, passthrough: &[String], alias: &str, st: &Store) -> (r: Result<
    CommandLine,
    Error,
>)
    ensures
        match r {
            Ok(line) => !blank(run_cmd@) && runs(
                line,
                run_cmd@,
                texts(passthrough@),
                alias@,
                st@,
            ),
            Err(e) => blank(run_cmd@) && e.says(ErrorKind::InvalidInput, "empty command"@),
        },
{
    match split_command(run_cmd) {
        Ok((bin, own)) => {
            let mut args = own;
            let ghost first = texts(args@);
            let mut more = copy_texts(passthrough);
            let ghost second = texts(more@);
            args.append(&mut more);
            proof {
                assert(texts(args@) =~= first + second);
                assert(seq![bin@] + (first + second) =~= (seq![bin@] + first) + second);
            }
            Ok(command_with_codex_home(bin, args, alias, st))
        },
        Err(e) => Err(e),
    }
}

/// The exit code that stands for the end of a command: its own, or 1 where it has none.
pub fn run_outcome(code: Option<i32>) -> (r: i32)
    ensures
        r == (match code {
            Some(code) => code,
            None => 1i32,
        }),
{
    match code {
        Some(code) => code,
        None => 1,
    }
}

/// The command that runs the server of the session `alias`.
pub fn server_command(alias: &str, st: &Store) -> (line: CommandLine)
    ensures
        line.bin@ == "codex"@,
        texts(line.args@) == seq!["app-server"@, "--listen"@, "stdio://"@],
        line.codex_home@ == path_below(st@.sessions_dir, alias@),
{
    let mut args: Vec<String> = Vec::new();
    args.push("app-server".to_string());
    args.push("--listen".to_string());
    args.push("stdio://".to_string());
    proof {
        assert(texts(args@) =~= seq!["app-server"@, "--listen"@, "stdio://"@]);
    }
    command_with_codex_home("codex".to_string(), args, alias, st)
}

// ---------------------------------------------------------------------------
// Laws
// ---------------------------------------------------------------------------
/// An alias is refused exactly where its pattern has a fault or does not match it, and the fault of
/// a pattern is reported before anything of the alias.
pub proof fn aliases_that_match_are_accepted(
    alias: Seq<char>,
    pattern: Seq<char>,
    fault: Option<Seq<char>>,
    matched: bool,
    other: Seq<char>,
)
    ensures
        alias_fault(alias, pattern, fault, matched) is None <==> fault is None && matched,
        fault is Some ==> alias_fault(alias, pattern, fault, matched) == alias_fault(
            other,
            pattern,
            fault,
            !matched,
        ),
        fault is Some ==> alias_fault(alias, pattern, fault, matched) == Some(
            "invalid alias pattern "@ + debug_text(pattern) + ": "@ + fault->0,
        ),
        fault is None && !matched ==> alias_fault(alias, pattern, fault, matched) == Some(
            "invalid alias "@ + debug_text(alias) + "; must match "@ + pattern
                + " (example: a1)"@,
        ),
        alias_refusal(alias, pattern) is None <==> regex_fault(pattern) is None && regex_matches(
            pattern,
            alias,
        ),
{
}

/// A command is run as its first word, with its other words and then what is added as arguments, in
/// their order, and with the directory of its session.
pub proof fn commands_run_in_their_session(
    line: CommandLine,
    cmd: Seq<char>,
    more: Seq<Seq<char>>,
    alias: Seq<char>,
    st: StoreView,
)
    requires
        runs(line, cmd, more, alias, st),
        words(cmd).len() > 0,
    ensures
        line.bin@ == words(cmd)[0],
        line.args@.len() == words(cmd).len() - 1 + more.len(),
        forall|i: int|
            0 <= i < words(cmd).len() - 1 ==> (#[trigger] line.args@[i])@ == words(cmd)[i + 1],
        forall|i: int|
            0 <= i < more.len() ==> (#[trigger] line.args@[words(cmd).len() - 1 + i])@ == more[i],
        line.codex_home@ == path_below(st.sessions_dir, alias),
{
    let all = seq![line.bin@] + texts(line.args@);
    let said = words(cmd) + more;
    assert(all == said);
    assert(all[0] == said[0]);
    assert(all.len() == said.len());
    assert forall|i: int| 0 <= i < words(cmd).len() - 1 implies (#[trigger] line.args@[i])@
        == words(cmd)[i + 1] by {
        assert(all[i + 1] == said[i + 1]);
    }
    assert forall|i: int| 0 <= i < more.len() implies (#[trigger] line.args@[words(cmd).len() - 1
        + i])@ == more[i] by {
        assert(all[words(cmd).len() + i] == said[words(cmd).len() + i]);
    }
}

} // verus!
