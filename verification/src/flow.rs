//! The course of one invocation that runs a command in a session: which action comes next, given
//! what came of the one before.
use vstd::prelude::*;

use crate::accounts::{is_email, resolution, resolve_email, Account};
use crate::cli::{Mode, EXIT_ALIAS_NOT_FOUND, EXIT_GENERIC, EXIT_LOGIN_FAILED, EXIT_NO_SESSIONS};
use crate::cli::EXIT_USAGE;
use crate::pick::{free_alias, next_auto_alias, pick_alias, pickable, picked};
use crate::session::{alias_refusal, validate_alias};
use crate::state::{GlobalState, GlobalStateView};
use crate::text::{same_text, texts};

verus! {

// ---------------------------------------------------------------------------
// Actions and replies
// ---------------------------------------------------------------------------
/// What is to be done next.
#[derive(Debug)]
pub enum Action {
    /// Find out the email addresses of the sessions.
    ListAccounts,
    /// Pick a session by the status.
    PickBest,
    /// Take the lock on the state.
    Lock,
    /// List the sessions.
    ListAliases,
    /// Make the directory of this session, unless there is one.
    MakeDirectory(String),
    /// Write the configuration file, unless there is one.
    EnsureConfig,
    /// Record that this session was assigned.
    RecordAssignment(String),
    /// Load the state of all sessions together.
    LoadGlobal,
    /// Save the state of all sessions together.
    SaveGlobal(GlobalState),
    /// Mark this session as selected in the status.
    MarkSelected(String),
    /// Release the lock on the state.
    Unlock,
    /// Log in to this session.
    Login(String),
    /// Run the command in this session.
    Run(String),
    /// End with this exit code, and this message where there is one.
    Exit(i32, Option<String>),
}

/// What came of an action.
#[derive(Debug)]
pub enum Reply {
    /// It is done.
    Done,
    /// It failed; the text says why.
    Failed(String),
    /// The sessions with their email addresses.
    Accounts(Vec<Account>),
    /// The session that was picked, if any.
    Picked(Option<String>),
    /// Whether the directory was made.
    Made(bool),
    /// The aliases of the sessions.
    Aliases(Vec<String>),
    /// The state of all sessions together.
    Global(GlobalState),
    /// The command ended with this exit code.
    Ended(i32),
}

pub enum ActionView {
    ListAccounts,
    PickBest,
    Lock,
    ListAliases,
    MakeDirectory(Seq<char>),
    EnsureConfig,
    RecordAssignment(Seq<char>),
    LoadGlobal,
    SaveGlobal(GlobalStateView),
    MarkSelected(Seq<char>),
    Unlock,
    Login(Seq<char>),
    Run(Seq<char>),
    Exit(i32, Option<Seq<char>>),
}

pub enum ReplyView {
    Done,
    Failed(Seq<char>),
    Accounts(Seq<Account>),
    Picked(Option<Seq<char>>),
    Made(bool),
    Aliases(Seq<Seq<char>>),
    Global(GlobalStateView),
    Ended(i32),
}

impl View for Action {
    type V = ActionView;

    open spec fn view(&self) -> ActionView {
        match self {
            Action::ListAccounts => ActionView::ListAccounts,
            Action::PickBest => ActionView::PickBest,
            Action::Lock => ActionView::Lock,
            Action::ListAliases => ActionView::ListAliases,
            Action::MakeDirectory(alias) => ActionView::MakeDirectory(alias@),
            Action::EnsureConfig => ActionView::EnsureConfig,
            Action::RecordAssignment(alias) => ActionView::RecordAssignment(alias@),
            Action::LoadGlobal => ActionView::LoadGlobal,
            Action::SaveGlobal(g) => ActionView::SaveGlobal(g@),
            Action::MarkSelected(alias) => ActionView::MarkSelected(alias@),
            Action::Unlock => ActionView::Unlock,
            Action::Login(alias) => ActionView::Login(alias@),
            Action::Run(alias) => ActionView::Run(alias@),
            Action::Exit(code, Some(message)) => ActionView::Exit(*code, Some(message@)),
            Action::Exit(code, None) => ActionView::Exit(*code, None),
        }
    }
}

impl View for Reply {
    type V = ReplyView;

    open spec fn view(&self) -> ReplyView {
        match self {
            Reply::Done => ReplyView::Done,
            Reply::Failed(message) => ReplyView::Failed(message@),
            Reply::Accounts(accounts) => ReplyView::Accounts(accounts@),
            Reply::Picked(Some(alias)) => ReplyView::Picked(Some(alias@)),
            Reply::Picked(None) => ReplyView::Picked(None),
            Reply::Made(made) => ReplyView::Made(*made),
            Reply::Aliases(aliases) => ReplyView::Aliases(texts(aliases@)),
            Reply::Global(g) => ReplyView::Global(g@),
            Reply::Ended(code) => ReplyView::Ended(*code),
        }
    }
}

// ---------------------------------------------------------------------------
// The course
// ---------------------------------------------------------------------------
/// Which action a reply is awaited for. An action that is done for a session that is picked in
/// turn, or picked again, is told from the same one for a session that is named or new.
#[derive(Debug, Clone, Copy, PartialEq, Eq, Structural)]
pub enum Stage {
    Accounts,
    Pick,
    LockNamed,
    LockNew,
    LockTurn,
    ListNew,
    ListTurn,
    Directory,
    Config,
    Record,
    Load,
    LoadTurn,
    ConfigTurn,
    RecordTurn,
    Save,
    Mark,
    Unlock,
    Login,
    Run,
    Over,
}

/// How far the course of an invocation has come.
#[derive(Debug)]
pub struct Flow {
    pub stage: Stage,
    pub alias: String,
    pub behavior: String,
    pub pattern: String,
    pub created: bool,
    pub marked: bool,
    pub aliases: Vec<String>,
    pub global: GlobalState,
}

pub struct FlowView {
    pub stage: Stage,
    pub alias: Seq<char>,
    pub behavior: Seq<char>,
    pub pattern: Seq<char>,
    pub created: bool,
    pub marked: bool,
    pub aliases: Seq<Seq<char>>,
    pub global: GlobalStateView,
}

impl View for Flow {
    type V = FlowView;

    open spec fn view(&self) -> FlowView {
        FlowView {
            stage: self.stage,
            alias: self.alias@,
            behavior: self.behavior@,
            pattern: self.pattern@,
            created: self.created,
            marked: self.marked,
            aliases: texts(self.aliases@),
            global: self.global@,
        }
    }
}

/// The course ends with the exit code `code` and the message `message`.
pub open spec fn ended(f: FlowView, code: i32, message: Option<Seq<char>>) -> (
    FlowView,
    ActionView,
) {
    (FlowView { stage: Stage::Over, ..f }, ActionView::Exit(code, message))
}

/// The course goes on to `stage`, where the reply to `action` is awaited.
pub open spec fn onward(f: FlowView, stage: Stage, action: ActionView) -> (FlowView, ActionView) {
    (FlowView { stage, ..f }, action)
}

/// The course goes on to a new session, where its alias is allowed.
pub open spec fn onward_if_allowed(f: FlowView, stage: Stage, action: ActionView) -> (
    FlowView,
    ActionView,
) {
    match alias_refusal(f.alias, f.pattern) {
        Some(message) => ended(f, EXIT_USAGE, Some(message)),
        None => onward(f, stage, action),
    }
}

/// How the course begins: a session that is named by an email address is looked up, one that is
/// named by an alias is run, and made first where it is new; without a name the best session is
/// picked; and where no new session was asked for, one is picked in turn, or the last one again.
/// What does not run a session is refused.
pub open spec fn begun(mode: Mode, alias: Seq<char>, pattern: Seq<char>) -> (FlowView, ActionView) {
    let f = FlowView {
        stage: Stage::Over,
        alias,
        behavior: if mode == Mode::Last {
            "last"@
        } else {
            "round_robin"@
        },
        pattern,
        created: false,
        marked: false,
        aliases: seq![],
        global: GlobalStateView { round_robin_index: 0, last_alias: ""@ },
    };
    if mode == Mode::New {
        if alias.len() == 0 {
            onward(f, Stage::Pick, ActionView::PickBest)
        } else if alias.contains('@') {
            onward(f, Stage::Accounts, ActionView::ListAccounts)
        } else {
            onward_if_allowed(f, Stage::LockNamed, ActionView::Lock)
        }
    } else if mode == Mode::Root || mode == Mode::Rr || mode == Mode::Last {
        onward(f, Stage::LockTurn, ActionView::Lock)
    } else {
        ended(f, EXIT_USAGE, Some("invalid mode"@))
    }
}

/// The exit code where the action of a stage fails.
pub open spec fn failure_code(stage: Stage) -> i32 {
    if stage == Stage::Login {
        EXIT_LOGIN_FAILED
    } else {
        EXIT_GENERIC
    }
}

/// The lock is to be released.
pub open spec fn unlocking(f: FlowView) -> (FlowView, ActionView) {
    onward(f, Stage::Unlock, ActionView::Unlock)
}

/// The session that is next in turn, or the last one, is picked.
pub open spec fn turn_taken(f: FlowView, g: GlobalStateView) -> (FlowView, ActionView) {
    match picked(f.aliases, g, f.behavior) {
        (Ok(alias), after) => onward(
            FlowView { alias, global: GlobalStateView { last_alias: alias, ..after }, ..f },
            Stage::ConfigTurn,
            ActionView::EnsureConfig,
        ),
        (Err(message), _) => ended(f, EXIT_NO_SESSIONS, Some(message)),
    }
}

/// How the course goes on after a reply.
pub open spec fn advanced(f: FlowView, reply: ReplyView) -> (FlowView, ActionView) {
    match (f.stage, reply) {
        (Stage::Mark, _) => unlocking(f),
        (_, ReplyView::Failed(message)) => ended(f, failure_code(f.stage), Some(message)),
        (Stage::Accounts, ReplyView::Accounts(accounts)) => match resolution(accounts, f.alias) {
            Ok(alias) => onward(
                FlowView { alias, ..f },
                Stage::LockNamed,
                ActionView::Lock,
            ),
            Err((_, message)) => ended(f, EXIT_GENERIC, Some(message)),
        },
        (Stage::Pick, ReplyView::Picked(Some(alias))) => onward(
            FlowView { alias, marked: true, ..f },
            Stage::LockNamed,
            ActionView::Lock,
        ),
        (Stage::Pick, ReplyView::Picked(None)) => onward(f, Stage::LockNew, ActionView::Lock),
        (Stage::LockNamed, ReplyView::Done) => onward(
            f,
            Stage::Directory,
            ActionView::MakeDirectory(f.alias),
        ),
        (Stage::LockNew, ReplyView::Done) => onward(f, Stage::ListNew, ActionView::ListAliases),
        (Stage::LockTurn, ReplyView::Done) => onward(f, Stage::ListTurn, ActionView::ListAliases),
        (Stage::ListNew, ReplyView::Aliases(aliases)) => {
            let alias = free_alias(aliases);
            onward_if_allowed(
                FlowView { alias, ..f },
                Stage::Directory,
                ActionView::MakeDirectory(alias),
            )
        },
        (Stage::ListTurn, ReplyView::Aliases(aliases)) => if aliases.len() == 0 {
            ended(
                f,
                EXIT_NO_SESSIONS,
                Some("no managed sessions found; create one with: agentlb new <alias>"@),
            )
        } else {
            onward(FlowView { aliases, ..f }, Stage::LoadTurn, ActionView::LoadGlobal)
        },
        (Stage::Directory, ReplyView::Made(created)) => onward(
            FlowView { created, ..f },
            Stage::Config,
            ActionView::EnsureConfig,
        ),
        (Stage::Config, ReplyView::Done) => onward(
            f,
            Stage::Record,
            ActionView::RecordAssignment(f.alias),
        ),
        (Stage::Record, ReplyView::Done) => onward(f, Stage::Load, ActionView::LoadGlobal),
        (Stage::Load, ReplyView::Global(g)) => onward(
            f,
            Stage::Save,
            ActionView::SaveGlobal(GlobalStateView { last_alias: f.alias, ..g }),
        ),
        (Stage::LoadTurn, ReplyView::Global(g)) => turn_taken(f, g),
        (Stage::ConfigTurn, ReplyView::Done) => onward(
            f,
            Stage::RecordTurn,
            ActionView::RecordAssignment(f.alias),
        ),
        (Stage::RecordTurn, ReplyView::Done) => onward(
            f,
            Stage::Save,
            ActionView::SaveGlobal(f.global),
        ),
        (Stage::Save, ReplyView::Done) => if f.marked {
            onward(f, Stage::Mark, ActionView::MarkSelected(f.alias))
        } else {
            unlocking(f)
        },
        (Stage::Unlock, ReplyView::Done) => if f.created {
            onward(f, Stage::Login, ActionView::Login(f.alias))
        } else {
            onward(f, Stage::Run, ActionView::Run(f.alias))
        },
        (Stage::Login, ReplyView::Done) => onward(f, Stage::Run, ActionView::Run(f.alias)),
        (Stage::Run, ReplyView::Ended(code)) => ended(f, code, None),
        _ => ended(f, EXIT_GENERIC, Some("unexpected reply"@)),
    }
}

/// Whether a reply can be taken: the place of the next session in turn has a successor, and the
/// aliases can be counted.
pub open spec fn reply_in_range(f: FlowView, reply: ReplyView) -> bool {
    match (f.stage, reply) {
        (Stage::LoadTurn, ReplyView::Global(g)) => pickable(f.aliases, g, f.behavior),
        (Stage::ListNew, ReplyView::Aliases(aliases)) => aliases.len() < usize::MAX,
        _ => true,
    }
}

fn end(flow: Flow, code: i32, message: Option<String>) -> (r: (Flow, Action))
    ensures
        (r.0@, r.1@) == ended(
            flow@,
            code,
            match message {
                Some(text) => Some(text@),
                None => None,
            },
        ),
{
    let mut flow = flow;
    flow.stage = Stage::Over;
    (flow, Action::Exit(code, message))
}

fn go(flow: Flow, stage: Stage, action: Action) -> (r: (Flow, Action))
    ensures
        (r.0@, r.1@) == onward(flow@, stage, action@),
{
    let mut flow = flow;
    flow.stage = stage;
    (flow, action)
}

fn go_if_allowed(flow: Flow, stage: Stage, action: Action) -> (r: (Flow, Action))
    ensures
        (r.0@, r.1@) == onward_if_allowed(flow@, stage, action@),
{
    match validate_alias(flow.alias.as_str(), flow.pattern.as_str()) {
        Ok(_) => go(flow, stage, action),
        Err(e) => end(flow, EXIT_USAGE, Some(e.message)),
    }
}

impl Flow {
    /// Begins the course of an invocation, given what is asked for, the alias or the email
    /// address of the arguments, and the pattern for aliases.
    pub fn begin(mode: Mode, alias: &str, pattern: &str) -> (r: (Flow, Action))
        ensures
            (r.0@, r.1@) == begun(mode, alias@, pattern@),
    {
        let behavior = match mode {
            Mode::Last => "last".to_string(),
            _ => "round_robin".to_string(),
        };
        let flow = Flow {
            stage: Stage::Over,
            alias: alias.to_string(),
            behavior,
            pattern: pattern.to_string(),
            created: false,
            marked: false,
            aliases: Vec::new(),
            global: GlobalState::default(),
        };
        proof {
            assert(texts(flow.aliases@) =~= seq![]);
        }
        match mode {
            Mode::New => {
                if alias.is_empty() {
                    go(flow, Stage::Pick, Action::PickBest)
                } else if is_email(alias) {
                    go(flow, Stage::Accounts, Action::ListAccounts)
                } else {
                    go_if_allowed(flow, Stage::LockNamed, Action::Lock)
                }
            },
            Mode::Root | Mode::Rr | Mode::Last => go(flow, Stage::LockTurn, Action::Lock),
            _ => end(flow, EXIT_USAGE, Some("invalid mode".to_string())),
        }
    }

    /// Whether `next` can be called.
    pub fn check_reply(&self, reply: &Reply) -> (r: bool)
        ensures
            r == reply_in_range(self@, reply@),
    {
        match (self.stage, reply) {
            (Stage::LoadTurn, Reply::Global(g)) => {
                same_text(self.behavior.as_str(), "last") || (self.aliases.len() > 0
                    && g.round_robin_index < usize::MAX)
            },
            (Stage::ListNew, Reply::Aliases(aliases)) => aliases.len() < usize::MAX,
            _ => true,
        }
    }

    /// Goes on after a reply.
    pub fn next(self, reply: Reply) -> (r: (Flow, Action))
        requires
            reply_in_range(self@, reply@),
        ensures
            (r.0@, r.1@) == advanced(self@, reply@),
    {
        let mut flow = self;
        match (flow.stage, reply) {
            (Stage::Mark, _) => go(flow, Stage::Unlock, Action::Unlock),
            (Stage::Login, Reply::Failed(message)) => end(flow, EXIT_LOGIN_FAILED, Some(message)),
            (_, Reply::Failed(message)) => end(flow, EXIT_GENERIC, Some(message)),
            (Stage::Accounts, Reply::Accounts(accounts)) => {
                match resolve_email(flow.alias.as_str(), &accounts) {
                    Ok(alias) => {
                        flow.alias = alias;
                        go(flow, Stage::LockNamed, Action::Lock)
                    },
                    Err(e) => end(flow, EXIT_GENERIC, Some(e.message)),
                }
            },
            (Stage::Pick, Reply::Picked(Some(alias))) => {
                flow.alias = alias;
                flow.marked = true;
                go(flow, Stage::LockNamed, Action::Lock)
            },
            (Stage::Pick, Reply::Picked(None)) => go(flow, Stage::LockNew, Action::Lock),
            (Stage::LockNamed, Reply::Done) => {
                let action = Action::MakeDirectory(flow.alias.clone());
                go(flow, Stage::Directory, action)
            },
            (Stage::LockNew, Reply::Done) => go(flow, Stage::ListNew, Action::ListAliases),
            (Stage::LockTurn, Reply::Done) => go(flow, Stage::ListTurn, Action::ListAliases),
            (Stage::ListNew, Reply::Aliases(aliases)) => {
                flow.alias = next_auto_alias(aliases.as_slice());
                let action = Action::MakeDirectory(flow.alias.clone());
                go_if_allowed(flow, Stage::Directory, action)
            },
            (Stage::ListTurn, Reply::Aliases(aliases)) => {
                if aliases.len() == 0 {
                    let message = "no managed sessions found; create one with: agentlb new <alias>";
                    return end(flow, EXIT_NO_SESSIONS, Some(message.to_string()));
                }
                flow.aliases = aliases;
                go(flow, Stage::LoadTurn, Action::LoadGlobal)
            },
            (Stage::Directory, Reply::Made(created)) => {
                flow.created = created;
                go(flow, Stage::Config, Action::EnsureConfig)
            },
            (Stage::Config, Reply::Done) => {
                let action = Action::RecordAssignment(flow.alias.clone());
                go(flow, Stage::Record, action)
            },
            (Stage::Record, Reply::Done) => go(flow, Stage::Load, Action::LoadGlobal),
            (Stage::Load, Reply::Global(g)) => {
                let mut g = g;
                g.last_alias = flow.alias.clone();
                go(flow, Stage::Save, Action::SaveGlobal(g))
            },
            (Stage::LoadTurn, Reply::Global(g)) => {
                let mut g = g;
                match pick_alias(flow.aliases.as_slice(), &mut g, flow.behavior.as_str()) {
                    Ok(winner) => {
                        g.last_alias = winner.clone();
                        flow.alias = winner;
                        flow.global = g;
                        go(flow, Stage::ConfigTurn, Action::EnsureConfig)
                    },
                    Err(e) => end(flow, EXIT_NO_SESSIONS, Some(e.message)),
                }
            },
            (Stage::ConfigTurn, Reply::Done) => {
                let action = Action::RecordAssignment(flow.alias.clone());
                go(flow, Stage::RecordTurn, action)
            },
            (Stage::RecordTurn, Reply::Done) => {
                let g = GlobalState {
                    round_robin_index: flow.global.round_robin_index,
                    last_alias: flow.global.last_alias.clone(),
                };
                go(flow, Stage::Save, Action::SaveGlobal(g))
            },
            (Stage::Save, Reply::Done) => {
                if flow.marked {
                    let action = Action::MarkSelected(flow.alias.clone());
                    go(flow, Stage::Mark, action)
                } else {
                    go(flow, Stage::Unlock, Action::Unlock)
                }
            },
            (Stage::Unlock, Reply::Done) => {
                let alias = flow.alias.clone();
                if flow.created {
                    go(flow, Stage::Login, Action::Login(alias))
                } else {
                    go(flow, Stage::Run, Action::Run(alias))
                }
            },
            (Stage::Login, Reply::Done) => {
                let action = Action::Run(flow.alias.clone());
                go(flow, Stage::Run, action)
            },
            (Stage::Run, Reply::Ended(code)) => end(flow, code, None),
            _ => end(flow, EXIT_GENERIC, Some("unexpected reply".to_string())),
        }
    }
}

// ---------------------------------------------------------------------------
// Laws
// ---------------------------------------------------------------------------
/// How many stages lie ahead at most.
pub open spec fn stages_ahead(stage: Stage) -> nat {
    match stage {
        Stage::Over => 0,
        Stage::Run => 1,
        Stage::Login => 2,
        Stage::Unlock => 3,
        Stage::Mark => 4,
        Stage::Save => 5,
        Stage::Load | Stage::RecordTurn => 6,
        Stage::Record | Stage::ConfigTurn => 7,
        Stage::Config | Stage::LoadTurn => 8,
        Stage::Directory | Stage::ListTurn => 9,
        Stage::ListNew | Stage::LockNamed | Stage::LockTurn => 10,
        Stage::LockNew | Stage::Accounts => 11,
        Stage::Pick => 12,
    }
}

/// Every invocation ends: each reply leaves fewer stages ahead, and at the last one the action is
/// to exit.
pub proof fn every_course_ends(f: FlowView, reply: ReplyView)
    ensures
        f.stage != Stage::Over ==> stages_ahead(advanced(f, reply).0.stage) < stages_ahead(f.stage),
        advanced(f, reply).0.stage == Stage::Over <==> advanced(f, reply).1 is Exit,
{
}

/// Whether the lock is held while the reply of a stage is awaited.
pub open spec fn holds_lock(stage: Stage) -> bool {
    match stage {
        Stage::ListNew
        | Stage::ListTurn
        | Stage::Directory
        | Stage::Config
        | Stage::Record
        | Stage::Load
        | Stage::LoadTurn
        | Stage::ConfigTurn
        | Stage::RecordTurn
        | Stage::Save
        | Stage::Mark
        | Stage::Unlock => true,
        _ => false,
    }
}

/// Whether an action reads or changes the state that the lock protects.
pub open spec fn needs_lock(action: ActionView) -> bool {
    match action {
        ActionView::ListAliases
        | ActionView::MakeDirectory(_)
        | ActionView::EnsureConfig
        | ActionView::RecordAssignment(_)
        | ActionView::LoadGlobal
        | ActionView::SaveGlobal(_)
        | ActionView::MarkSelected(_)
        | ActionView::Unlock => true,
        _ => false,
    }
}

/// The state is only touched under the lock, the lock is only taken where it is not held, and no
/// command is run while it is.
pub proof fn the_lock_is_kept(f: FlowView, reply: ReplyView)
    ensures
        ({
            let (next, action) = advanced(f, reply);
            &&& needs_lock(action) ==> holds_lock(next.stage)
            &&& action is Lock ==> !holds_lock(f.stage)
            &&& (action is Login || action is Run) ==> !holds_lock(next.stage)
            &&& holds_lock(next.stage) && !holds_lock(f.stage) ==> reply is Done && (f.stage
                == Stage::LockNamed || f.stage == Stage::LockNew || f.stage == Stage::LockTurn)
        }),
{
}

/// A login is run only for a session that was just created, and before the command.
pub proof fn login_is_for_new_sessions(f: FlowView, reply: ReplyView)
    ensures
        ({
            let (next, action) = advanced(f, reply);
            &&& action is Login ==> f.created && f.stage == Stage::Unlock
            &&& next.created && !f.created ==> reply == ReplyView::Made(true)
            &&& action is Run ==> f.stage == Stage::Login || (f.stage == Stage::Unlock
                && !f.created)
        }),
{
}

/// The session in which the command runs is the one that was saved as the last, and nothing
/// changes it after that.
pub proof fn the_last_session_is_the_one_that_runs(f: FlowView, reply: ReplyView)
    requires
        f.stage == Stage::RecordTurn || f.stage == Stage::ConfigTurn ==> f.global.last_alias
            == f.alias,
    ensures
        ({
            let (next, action) = advanced(f, reply);
            &&& action is SaveGlobal ==> action->SaveGlobal_0.last_alias == next.alias
            &&& action is Login ==> action->Login_0 == next.alias
            &&& action is Run ==> action->Run_0 == next.alias
            &&& f.stage == Stage::Save || f.stage == Stage::Mark || f.stage == Stage::Unlock
                || f.stage == Stage::Login || f.stage == Stage::Run ==> next.alias == f.alias
            &&& next.stage == Stage::RecordTurn || next.stage == Stage::ConfigTurn
                ==> next.global.last_alias == next.alias
        }),
{
}

/// The exit codes: a failed login, and nothing else, ends with its code; that there is no session
/// is said only where one is picked in turn or again; and the reserved code is never used, unless
/// the command itself ends with it.
pub proof fn exit_codes_have_their_meaning(f: FlowView, reply: ReplyView)
    requires
        !(reply is Ended),
        advanced(f, reply).1 is Exit,
    ensures
        ({
            let code = advanced(f, reply).1->Exit_0;
            &&& code == EXIT_LOGIN_FAILED <==> f.stage == Stage::Login && reply is Failed
            &&& code == EXIT_NO_SESSIONS ==> f.stage == Stage::ListTurn || f.stage == Stage::LoadTurn
            &&& code == EXIT_USAGE ==> f.stage == Stage::ListNew
            &&& code != EXIT_ALIAS_NOT_FOUND
            &&& code != 0
        }),
{
}

/// The exit code of a command that ended is the exit code of the invocation.
pub proof fn the_exit_code_of_the_command_is_passed_on(f: FlowView, code: i32)
    requires
        f.stage == Stage::Run,
    ensures
        advanced(f, ReplyView::Ended(code)).1 == ActionView::Exit(code, None),
{
}

/// What is said of an action is said of the action.
pub proof fn the_view_of_an_action_is_the_action(action: Action)
    ensures
        action is ListAccounts <==> action@ is ListAccounts,
        action is PickBest <==> action@ is PickBest,
        action is Lock <==> action@ is Lock,
        action is ListAliases <==> action@ is ListAliases,
        action is EnsureConfig <==> action@ is EnsureConfig,
        action is LoadGlobal <==> action@ is LoadGlobal,
        action is Unlock <==> action@ is Unlock,
        action is MakeDirectory <==> action@ is MakeDirectory,
        action is RecordAssignment <==> action@ is RecordAssignment,
        action is SaveGlobal <==> action@ is SaveGlobal,
        action is MarkSelected <==> action@ is MarkSelected,
        action is Login <==> action@ is Login,
        action is Run <==> action@ is Run,
        action is Exit <==> action@ is Exit,
        action is MakeDirectory ==> action@->MakeDirectory_0 == action->MakeDirectory_0@,
        action is RecordAssignment ==> action@->RecordAssignment_0 == action->RecordAssignment_0@,
        action is SaveGlobal ==> action@->SaveGlobal_0 == action->SaveGlobal_0@,
        action is MarkSelected ==> action@->MarkSelected_0 == action->MarkSelected_0@,
        action is Login ==> action@->Login_0 == action->Login_0@,
        action is Run ==> action@->Run_0 == action->Run_0@,
        action is Exit ==> action@->Exit_0 == action->Exit_0,
        action is Exit ==> (action@->Exit_1 is Some <==> action->Exit_1 is Some),
        action is Exit && action->Exit_1 is Some ==> action@->Exit_1->0 == action->Exit_1->0@,
{
}

/// What is said of a reply is said of the reply.
pub proof fn the_view_of_a_reply_is_the_reply(reply: Reply)
    ensures
        reply is Done <==> reply@ is Done,
        reply is Failed <==> reply@ is Failed,
        reply is Accounts <==> reply@ is Accounts,
        reply is Picked <==> reply@ is Picked,
        reply is Made <==> reply@ is Made,
        reply is Aliases <==> reply@ is Aliases,
        reply is Global <==> reply@ is Global,
        reply is Ended <==> reply@ is Ended,
        reply is Failed ==> reply@->Failed_0 == reply->Failed_0@,
        reply is Accounts ==> reply@->Accounts_0 == reply->Accounts_0@,
        reply is Picked ==> (reply@->Picked_0 is Some <==> reply->Picked_0 is Some),
        reply is Picked && reply->Picked_0 is Some ==> reply@->Picked_0->0 == reply->Picked_0->0@,
        reply is Made ==> reply@->Made_0 == reply->Made_0,
        reply is Aliases ==> reply@->Aliases_0 == texts(reply->Aliases_0@),
        reply is Global ==> reply@->Global_0 == reply->Global_0@,
        reply is Ended ==> reply@->Ended_0 == reply->Ended_0,
{
}

/// What is said of a course is said of its fields, each by its own name.
pub proof fn the_view_of_a_course_is_its_fields(f: Flow)
    ensures
        f@.stage == f.stage,
        f@.alias == f.alias@,
        f@.behavior == f.behavior@,
        f@.pattern == f.pattern@,
        f@.created == f.created,
        f@.marked == f.marked,
        f@.aliases == texts(f.aliases@),
        f@.global == f.global@,
{
}

/// A session that is named, and may be, is run under the lock and its record: its directory is made,
/// the configuration written, the assignment recorded, and it becomes the last session; all else
/// that is remembered stays. A session that was made is logged in to before the command runs in it.
pub proof fn a_named_session_is_made_and_run(
    alias: Seq<char>,
    pattern: Seq<char>,
    made: bool,
    g: GlobalStateView,
    code: i32,
)
    requires
        alias.len() > 0,
        !alias.contains('@'),
        alias_refusal(alias, pattern) is None,
    ensures
        ({
            let (f0, a0) = begun(Mode::New, alias, pattern);
            let (f1, a1) = advanced(f0, ReplyView::Done);
            let (f2, a2) = advanced(f1, ReplyView::Made(made));
            let (f3, a3) = advanced(f2, ReplyView::Done);
            let (f4, a4) = advanced(f3, ReplyView::Done);
            let (f5, a5) = advanced(f4, ReplyView::Global(g));
            let (f6, a6) = advanced(f5, ReplyView::Done);
            let (f7, a7) = advanced(f6, ReplyView::Done);
            let (f8, a8) = advanced(f7, ReplyView::Done);
            let (f9, a9) = advanced(f8, ReplyView::Ended(code));
            let (_, b8) = advanced(f7, ReplyView::Ended(code));
            &&& a0 == ActionView::Lock
            &&& a1 == ActionView::MakeDirectory(alias)
            &&& a2 == ActionView::EnsureConfig
            &&& a3 == ActionView::RecordAssignment(alias)
            &&& a4 == ActionView::LoadGlobal
            &&& a5 == ActionView::SaveGlobal(GlobalStateView { last_alias: alias, ..g })
            &&& a6 == ActionView::Unlock
            &&& made ==> a7 == ActionView::Login(alias) && a8 == ActionView::Run(alias) && a9
                == ActionView::Exit(code, None)
            &&& !made ==> a7 == ActionView::Run(alias) && b8 == ActionView::Exit(code, None)
        }),
{
}

/// A name that its pattern refuses ends at once as wrong usage, with what is wrong.
pub proof fn a_refused_name_ends_at_once(alias: Seq<char>, pattern: Seq<char>)
    requires
        alias.len() > 0,
        !alias.contains('@'),
        alias_refusal(alias, pattern) is Some,
    ensures
        begun(Mode::New, alias, pattern).1 == ActionView::Exit(2, alias_refusal(alias, pattern)),
{
}

/// An address leads, through the accounts, to the session that has it, which is then run like one
/// that is named; an address that leads nowhere ends with an error that says so.
pub proof fn an_address_leads_to_its_session(
    email: Seq<char>,
    pattern: Seq<char>,
    accounts: Seq<Account>,
)
    requires
        email.contains('@'),
    ensures
        ({
            let (f0, a0) = begun(Mode::New, email, pattern);
            let (f1, a1) = advanced(f0, ReplyView::Accounts(accounts));
            &&& a0 == ActionView::ListAccounts
            &&& match resolution(accounts, email) {
                Ok(alias) => a1 == ActionView::Lock && f1.alias == alias && advanced(
                    f1,
                    ReplyView::Done,
                ).1 == ActionView::MakeDirectory(alias),
                Err((_, message)) => a1 == ActionView::Exit(1, Some(message)),
            }
        }),
{
}

/// Without a name the session is picked by the status and run, and marked as selected once all is
/// recorded; whether marking it succeeds does not matter.
pub proof fn a_picked_session_is_marked(
    pattern: Seq<char>,
    alias: Seq<char>,
    made: bool,
    g: GlobalStateView,
    reply: ReplyView,
)
    ensures
        ({
            let (f0, a0) = begun(Mode::New, seq![], pattern);
            let (f1, a1) = advanced(f0, ReplyView::Picked(Some(alias)));
            let (f2, a2) = advanced(f1, ReplyView::Done);
            let (f3, a3) = advanced(f2, ReplyView::Made(made));
            let (f4, a4) = advanced(f3, ReplyView::Done);
            let (f5, a5) = advanced(f4, ReplyView::Done);
            let (f6, a6) = advanced(f5, ReplyView::Global(g));
            let (f7, a7) = advanced(f6, ReplyView::Done);
            let (f8, a8) = advanced(f7, reply);
            let (f9, a9) = advanced(f8, ReplyView::Done);
            &&& a0 == ActionView::PickBest
            &&& a1 == ActionView::Lock
            &&& a2 == ActionView::MakeDirectory(alias)
            &&& a3 == ActionView::EnsureConfig
            &&& a4 == ActionView::RecordAssignment(alias)
            &&& a5 == ActionView::LoadGlobal
            &&& a6 == ActionView::SaveGlobal(GlobalStateView { last_alias: alias, ..g })
            &&& a7 == ActionView::MarkSelected(alias)
            &&& a8 == ActionView::Unlock
            &&& made ==> a9 == ActionView::Login(alias)
            &&& !made ==> a9 == ActionView::Run(alias)
        }),
{
}

/// Where none can be picked, a new session is made under the first free name, where that name may
/// be.
pub proof fn a_new_session_gets_a_free_name(
    pattern: Seq<char>,
    aliases: Seq<Seq<char>>,
    g: GlobalStateView,
)
    ensures
        ({
            let alias = free_alias(aliases);
            let (f0, a0) = begun(Mode::New, seq![], pattern);
            let (f1, a1) = advanced(f0, ReplyView::Picked(None));
            let (f2, a2) = advanced(f1, ReplyView::Done);
            let (f3, a3) = advanced(f2, ReplyView::Aliases(aliases));
            let (f4, a4) = advanced(f3, ReplyView::Made(true));
            let (f5, a5) = advanced(f4, ReplyView::Done);
            let (f6, a6) = advanced(f5, ReplyView::Done);
            let (f7, a7) = advanced(f6, ReplyView::Global(g));
            let (f8, a8) = advanced(f7, ReplyView::Done);
            let (f9, a9) = advanced(f8, ReplyView::Done);
            let (f10, a10) = advanced(f9, ReplyView::Done);
            &&& a1 == ActionView::Lock
            &&& a2 == ActionView::ListAliases
            &&& alias_refusal(alias, pattern) is Some ==> a3 == ActionView::Exit(
                2,
                alias_refusal(alias, pattern),
            )
            &&& alias_refusal(alias, pattern) is None ==> {
                &&& a3 == ActionView::MakeDirectory(alias)
                &&& a4 == ActionView::EnsureConfig
                &&& a5 == ActionView::RecordAssignment(alias)
                &&& a6 == ActionView::LoadGlobal
                &&& a7 == ActionView::SaveGlobal(GlobalStateView { last_alias: alias, ..g })
                &&& a8 == ActionView::Unlock
                &&& a9 == ActionView::Login(alias)
                &&& a10 == ActionView::Run(alias)
            }
        }),
{
}

/// In turn, the session whose turn it is runs without a login, and the next turn and the session
/// are saved together; without any session, or without a last one, that is an error of its own.
pub proof fn a_turn_is_taken_and_saved(
    mode: Mode,
    alias: Seq<char>,
    pattern: Seq<char>,
    aliases: Seq<Seq<char>>,
    g: GlobalStateView,
    code: i32,
)
    requires
        mode == Mode::Root || mode == Mode::Rr || mode == Mode::Last,
    ensures
        ({
            let behavior = if mode == Mode::Last {
                "last"@
            } else {
                "round_robin"@
            };
            let (f0, a0) = begun(mode, alias, pattern);
            let (f1, a1) = advanced(f0, ReplyView::Done);
            let (f2, a2) = advanced(f1, ReplyView::Aliases(aliases));
            let (f3, a3) = advanced(f2, ReplyView::Global(g));
            let (f4, a4) = advanced(f3, ReplyView::Done);
            let (f5, a5) = advanced(f4, ReplyView::Done);
            let (f6, a6) = advanced(f5, ReplyView::Done);
            let (f7, a7) = advanced(f6, ReplyView::Done);
            let (f8, a8) = advanced(f7, ReplyView::Ended(code));
            let (choice, after) = picked(aliases, g, behavior);
            &&& a0 == ActionView::Lock
            &&& a1 == ActionView::ListAliases
            &&& aliases.len() == 0 ==> a2 == ActionView::Exit(
                4,
                Some("no managed sessions found; create one with: agentlb new <alias>"@),
            )
            &&& aliases.len() > 0 ==> a2 == ActionView::LoadGlobal
            &&& aliases.len() > 0 && choice is Err ==> a3 == ActionView::Exit(
                4,
                Some(choice->Err_0),
            )
            &&& aliases.len() > 0 && choice is Ok ==> {
                &&& a3 == ActionView::EnsureConfig
                &&& a4 == ActionView::RecordAssignment(choice->Ok_0)
                &&& a5 == ActionView::SaveGlobal(
                    GlobalStateView {
                        round_robin_index: after.round_robin_index,
                        last_alias: choice->Ok_0,
                    },
                )
                &&& a6 == ActionView::Unlock
                &&& a7 == ActionView::Run(choice->Ok_0)
                &&& a8 == ActionView::Exit(code, None)
            }
        }),
{
}

/// Other modes run nothing.
pub proof fn other_modes_run_nothing(mode: Mode, alias: Seq<char>, pattern: Seq<char>)
    requires
        mode != Mode::New,
        mode != Mode::Root,
        mode != Mode::Rr,
        mode != Mode::Last,
    ensures
        begun(mode, alias, pattern).1 == ActionView::Exit(2, Some("invalid mode"@)),
{
}

/// Whatever fails ends the course with its own message, and as a failed login where it was one; only
/// marking a session may fail without that.
pub proof fn failures_end_the_course(f: FlowView, message: Seq<char>)
    ensures
        f.stage == Stage::Login ==> advanced(f, ReplyView::Failed(message)).1 == ActionView::Exit(
            5,
            Some(message),
        ),
        f.stage != Stage::Login && f.stage != Stage::Mark ==> advanced(
            f,
            ReplyView::Failed(message),
        ).1 == ActionView::Exit(1, Some(message)),
        f.stage == Stage::Mark ==> advanced(f, ReplyView::Failed(message)).1 is Unlock,
{
}

} // verus!
