# agentlb

`agentlb` runs Codex with a `CODEX_HOME` of its own per session, and keeps a supervisor in the
background that tracks the usage of the sessions in `~/.agentlb/status.json`.

The library under `src/` holds the decisions of the program. It is written in Verus: what each
function returns or changes is stated in its contract and proved. The program under `app/` is
ordinary Rust around it: it reads and writes files, starts processes, and does what the library
decides.

## The library

- `cli`, `program`, `flow`: what the arguments ask for, and the course of the program and of a
  session, step by step: each reply to an action gives the next action.
- `config`: the settings, their defaults, and how a file is laid over them.
- `state`, `path`: where the files lie, how they are written, and the state that they keep.
- `session`, `accounts`: which aliases are allowed, the commands that run in a session, and the
  email addresses of the sessions.
- `pick`, `status`: the next session in turn, and the best session by usage, load and age.
- `supervisor`, `daemon`, `round`, `runtime`: whether the supervisor runs, what it keeps of all
  sessions, in which order it looks after them, and how the server of a session is restarted.
- `json`, `time`, `text`, `numbers`, `map`, `error`: what the others build on.

Times and JSON documents are read and written by `chrono` and `serde_json`, and aliases are matched
by `regex`. What is taken from them without proof is stated at the functions that call them.

## Commands

- `agentlb`, `agentlb rr`: the next session in turn.
- `agentlb new <alias>`, `agentlb new <email>`, `agentlb new`: a session by name, by the email
  address of its account, or the best one by `status.json`; where none can be picked, a new one.
- `agentlb last`: the last session again.
- `agentlb list`: the sessions with their email addresses and directories.
- `agentlb supervisor`, `agentlb supervisor start --background|restart|stop`: the supervisor.
- `agentlb config init`: the configuration file with the defaults.

Exit codes: 0 for success, 1 for an error, 2 for arguments that are not understood, 3 is reserved
for an alias that is not found, 4 where there is no session to pick, and 5 for a failed login.
