//! The course of the whole program: from the arguments to what is done for them and the exit
//! code.
use vstd::prelude::*;

use crate::cli::{login_command_of, no_arguments, parse_cli, read_all};
use crate::cli::{resolve_login_command, resolve_run_command, run_command_of, CliArgs, CliView};
use crate::cli::{Mode, EXIT_GENERIC, EXIT_OK, EXIT_USAGE};
use crate::config::{Config, ConfigView};
use crate::path::path_below;
use crate::state::{store_below, Store, StoreView};
use crate::supervisor::{help_text, supervisor_help, SupervisorCommand};
use crate::text::texts;

verus! {

/// What is to be done next.
#[derive(Debug)]
pub enum Order {
    /// Make the directories and the lock file of the store.
    MakeLayout,
    /// Write the configuration file with the defaults.
    WriteConfig,
    /// Load the configuration.
    LoadConfig,
    /// See to it that the supervisor runs.
    EnsureSupervisor,
    /// Start, restart or stop the supervisor.
    Supervise(SupervisorCommand),
    /// Be the supervisor.
    RunDaemon,
    /// List the sessions.
    ListSessions,
    /// Run a command in a session: the command to run and the command to log in.
    RunSession(String, String),
    /// Print this text.
    Print(String),
    /// End with this exit code, and this message where there is one.
    Exit(i32, Option<String>),
}

/// What came of an order.
#[derive(Debug)]
pub enum Outcome {
    /// It is done.
    Done,
    /// It failed; the text says why.
    Failed(String),
    /// The configuration.
    Loaded(Config),
    /// The session ended with this exit code.
    Ended(i32),
}

pub enum OrderView {
    MakeLayout,
    WriteConfig,
    LoadConfig,
    EnsureSupervisor,
    Supervise(SupervisorCommand),
    RunDaemon,
    ListSessions,
    RunSession(Seq<char>, Seq<char>),
    Print(Seq<char>),
    Exit(i32, Option<Seq<char>>),
}

pub enum OutcomeView {
    Done,
    Failed(Seq<char>),
    Loaded(ConfigView),
    Ended(i32),
}

impl View for Order {
    type V = OrderView;

    open spec fn view(&self) -> OrderView {
        match self {
            Order::MakeLayout => OrderView::MakeLayout,
            Order::WriteConfig => OrderView::WriteConfig,
            Order::LoadConfig => OrderView::LoadConfig,
            Order::EnsureSupervisor => OrderView::EnsureSupervisor,
            Order::Supervise(command) => OrderView::Supervise(*command),
            Order::RunDaemon => OrderView::RunDaemon,
            Order::ListSessions => OrderView::ListSessions,
            Order::RunSession(run_cmd, login_cmd) => OrderView::RunSession(run_cmd@, login_cmd@),
            Order::Print(text) => OrderView::Print(text@),
            Order::Exit(code, Some(message)) => OrderView::Exit(*code, Some(message@)),
            Order::Exit(code, None) => OrderView::Exit(*code, None),
        }
    }
}

impl View for Outcome {
    type V = OutcomeView;

    open spec fn view(&self) -> OutcomeView {
        match self {
            Outcome::Done => OutcomeView::Done,
            Outcome::Failed(message) => OutcomeView::Failed(message@),
            Outcome::Loaded(config) => OutcomeView::Loaded(config@),
            Outcome::Ended(code) => OutcomeView::Ended(*code),
        }
    }
}

/// Which order an outcome is awaited for.
#[derive(Debug, Clone, Copy, PartialEq, Eq, Structural)]
pub enum Phase {
    Layout,
    Config,
    Load,
    Supervisor,
    Work,
    Print,
    Over,
}

/// How far the program has come.
#[derive(Debug)]
pub struct Program {
    pub phase: Phase,
    pub args: CliArgs,
    pub store: Store,
    pub run_cmd: String,
    pub login_cmd: String,
}

pub struct ProgramView {
    pub phase: Phase,
    pub args: CliView,
    pub store: StoreView,
    pub run_cmd: Seq<char>,
    pub login_cmd: Seq<char>,
}

impl View for Program {
    type V = ProgramView;

    open spec fn view(&self) -> ProgramView {
        ProgramView {
            phase: self.phase,
            args: self.args@,
            store: self.store@,
            run_cmd: self.run_cmd@,
            login_cmd: self.login_cmd@,
        }
    }
}

/// The program goes on to `phase`, where the outcome of `order` is awaited.
pub open spec fn proceeding(p: ProgramView, phase: Phase, order: OrderView) -> (
    ProgramView,
    OrderView,
) {
    (ProgramView { phase, ..p }, order)
}

/// The program ends.
pub open spec fn finished(p: ProgramView, code: i32, message: Option<Seq<char>>) -> (
    ProgramView,
    OrderView,
) {
    proceeding(p, Phase::Over, OrderView::Exit(code, message))
}

/// What is done once the store is there: some commands need no configuration.
pub open spec fn after_layout(p: ProgramView) -> (ProgramView, OrderView) {
    match p.args.mode {
        Mode::ConfigInit => proceeding(p, Phase::Config, OrderView::WriteConfig),
        Mode::Supervisor => proceeding(p, Phase::Print, OrderView::Print(help_text())),
        Mode::SupervisorStart => proceeding(
            p,
            Phase::Work,
            OrderView::Supervise(SupervisorCommand::Start),
        ),
        Mode::SupervisorRestart => proceeding(
            p,
            Phase::Work,
            OrderView::Supervise(SupervisorCommand::Restart),
        ),
        Mode::SupervisorStop => proceeding(
            p,
            Phase::Work,
            OrderView::Supervise(SupervisorCommand::Stop),
        ),
        Mode::SupervisorDaemon => proceeding(p, Phase::Work, OrderView::RunDaemon),
        _ => proceeding(p, Phase::Load, OrderView::LoadConfig),
    }
}

/// What is done for the arguments once the configuration is loaded and the supervisor is seen to.
pub open spec fn work_of(p: ProgramView) -> (ProgramView, OrderView) {
    if p.args.mode == Mode::List {
        proceeding(p, Phase::Work, OrderView::ListSessions)
    } else {
        proceeding(p, Phase::Work, OrderView::RunSession(p.run_cmd, p.login_cmd))
    }
}

/// How the program goes on after an outcome. That the supervisor could not be started stops
/// nothing.
pub open spec fn proceeded(p: ProgramView, outcome: OutcomeView) -> (ProgramView, OrderView) {
    match (p.phase, outcome) {
        (Phase::Supervisor, _) => work_of(p),
        (_, OutcomeView::Failed(message)) => finished(p, EXIT_GENERIC, Some(message)),
        (Phase::Layout, OutcomeView::Done) => after_layout(p),
        (Phase::Config, OutcomeView::Done) => proceeding(
            p,
            Phase::Print,
            OrderView::Print(p.store.config_path),
        ),
        (Phase::Load, OutcomeView::Loaded(cfg)) => {
            let run_cmd = run_command_of(p.args, cfg);
            proceeding(
                ProgramView {
                    run_cmd,
                    login_cmd: login_command_of(p.args, cfg, run_cmd),
                    ..p
                },
                Phase::Supervisor,
                OrderView::EnsureSupervisor,
            )
        },
        (Phase::Work, OutcomeView::Done) => finished(p, EXIT_OK, None),
        (Phase::Work, OutcomeView::Ended(code)) => finished(p, code, None),
        (Phase::Print, OutcomeView::Done) => finished(p, EXIT_OK, None),
        _ => finished(p, EXIT_GENERIC, Some("unexpected outcome"@)),
    }
}

/// How the program begins: with a first order, or with its end.
#[derive(Debug)]
pub enum Beginning {
    Under(Program, Order),
    Exit(i32, String),
}

fn proceed(program: Program, phase: Phase, order: Order) -> (r: (Program, Order))
    ensures
        (r.0@, r.1@) == proceeding(program@, phase, order@),
{
    let mut program = program;
    program.phase = phase;
    (program, order)
}

impl Program {
    /// Begins the program, given its arguments and the home directory of the user, where it is
    /// known.
    pub fn begin(argv: &[String], home: Option<&str>) -> (r: Beginning)
        ensures
            ({
                let read = read_all(no_arguments(), texts(argv@));
                match r {
                    Beginning::Under(program, order) => {
                        &&& read is Ok
                        &&& home is Some
                        &&& program@ == (ProgramView {
                            phase: Phase::Layout,
                            args: read->Ok_0,
                            store: store_below(path_below(home->0@, ".agentlb"@)),
                            run_cmd: ""@,
                            login_cmd: ""@,
                        })
                        &&& order@ == OrderView::MakeLayout
                    },
                    Beginning::Exit(code, message) => if read is Err {
                        code == EXIT_USAGE && message@ == read->Err_0
                    } else {
                        home is None && code == EXIT_GENERIC && message@ == "HOME is not set"@
                    },
                }
            }),
    {
        let args = match parse_cli(argv) {
            Ok(args) => args,
            Err(e) => {
                return Beginning::Exit(EXIT_USAGE, e.message);
            },
        };
        let store = match Store::new(home) {
            Ok(store) => store,
            Err(e) => {
                return Beginning::Exit(EXIT_GENERIC, e.message);
            },
        };
        let program = Program {
            phase: Phase::Layout,
            args,
            store,
            run_cmd: "".to_string(),
            login_cmd: "".to_string(),
        };
        Beginning::Under(program, Order::MakeLayout)
    }

    /// Goes on after an outcome.
    pub fn next(self, outcome: Outcome) -> (r: (Program, Order))
        ensures
            (r.0@, r.1@) == proceeded(self@, outcome@),
    {
        let mut program = self;
        match (program.phase, outcome) {
            (Phase::Supervisor, _) => {
                if program.args.mode == Mode::List {
                    proceed(program, Phase::Work, Order::ListSessions)
                } else {
                    let order = Order::RunSession(
                        program.run_cmd.clone(),
                        program.login_cmd.clone(),
                    );
                    proceed(program, Phase::Work, order)
                }
            },
            (_, Outcome::Failed(message)) => proceed(
                program,
                Phase::Over,
                Order::Exit(EXIT_GENERIC, Some(message)),
            ),
            (Phase::Layout, Outcome::Done) => match program.args.mode {
                Mode::ConfigInit => proceed(program, Phase::Config, Order::WriteConfig),
                Mode::Supervisor => proceed(
                    program,
                    Phase::Print,
                    Order::Print(supervisor_help()),
                ),
                Mode::SupervisorStart => proceed(
                    program,
                    Phase::Work,
                    Order::Supervise(SupervisorCommand::Start),
                ),
                Mode::SupervisorRestart => proceed(
                    program,
                    Phase::Work,
                    Order::Supervise(SupervisorCommand::Restart),
                ),
                Mode::SupervisorStop => proceed(
                    program,
                    Phase::Work,
                    Order::Supervise(SupervisorCommand::Stop),
                ),
                Mode::SupervisorDaemon => proceed(program, Phase::Work, Order::RunDaemon),
                _ => proceed(program, Phase::Load, Order::LoadConfig),
            },
            (Phase::Config, Outcome::Done) => {
                let order = Order::Print(program.store.config_path.clone());
                proceed(program, Phase::Print, order)
            },
            (Phase::Load, Outcome::Loaded(cfg)) => {
                let run_cmd = resolve_run_command(&program.args, &cfg);
                let login_cmd = resolve_login_command(&program.args, &cfg, run_cmd.as_str());
                program.run_cmd = run_cmd;
                program.login_cmd = login_cmd;
                proceed(program, Phase::Supervisor, Order::EnsureSupervisor)
            },
            (Phase::Work, Outcome::Done) => proceed(
                program,
                Phase::Over,
                Order::Exit(EXIT_OK, None),
            ),
            (Phase::Work, Outcome::Ended(code)) => proceed(
                program,
                Phase::Over,
                Order::Exit(code, None),
            ),
            (Phase::Print, Outcome::Done) => proceed(
                program,
                Phase::Over,
                Order::Exit(EXIT_OK, None),
            ),
            _ => proceed(
                program,
                Phase::Over,
                Order::Exit(EXIT_GENERIC, Some("unexpected outcome".to_string())),
            ),
        }
    }
}

// ---------------------------------------------------------------------------
// Laws
// ---------------------------------------------------------------------------
/// How many phases lie ahead at most.
pub open spec fn phases_ahead(phase: Phase) -> nat {
    match phase {
        Phase::Over => 0,
        Phase::Print => 1,
        Phase::Work => 1,
        Phase::Supervisor => 2,
        Phase::Load => 3,
        Phase::Config => 3,
        Phase::Layout => 4,
    }
}

/// The program ends: each outcome leaves fewer phases ahead, and at the last one the order is to
/// exit.
pub proof fn the_program_ends(p: ProgramView, outcome: OutcomeView)
    ensures
        p.phase != Phase::Over ==> phases_ahead(proceeded(p, outcome).0.phase) < phases_ahead(
            p.phase,
        ),
        proceeded(p, outcome).0.phase == Phase::Over <==> proceeded(p, outcome).1 is Exit,
{
}

/// The supervisor is seen to before every session that is run and every list of sessions, and
/// for nothing else; and whatever comes of that, the program goes on.
pub proof fn the_supervisor_is_seen_to_first(p: ProgramView, outcome: OutcomeView)
    ensures
        ({
            let order = proceeded(p, outcome).1;
            &&& (order is RunSession || order is ListSessions) <==> p.phase == Phase::Supervisor
            &&& order is EnsureSupervisor ==> p.phase == Phase::Load
        }),
{
}

/// A step that fails ends the program with the code for errors, but for the start of the
/// supervisor.
pub proof fn failures_end_the_program(p: ProgramView, message: Seq<char>)
    requires
        p.phase != Phase::Supervisor,
    ensures
        proceeded(p, OutcomeView::Failed(message)).1 == OrderView::Exit(
            EXIT_GENERIC,
            Some(message),
        ),
{
}

/// What is said of an order is said of the order.
pub proof fn the_view_of_an_order_is_the_order(order: Order)
    ensures
        order is MakeLayout <==> order@ is MakeLayout,
        order is WriteConfig <==> order@ is WriteConfig,
        order is LoadConfig <==> order@ is LoadConfig,
        order is EnsureSupervisor <==> order@ is EnsureSupervisor,
        order is Supervise <==> order@ is Supervise,
        order is RunDaemon <==> order@ is RunDaemon,
        order is ListSessions <==> order@ is ListSessions,
        order is RunSession <==> order@ is RunSession,
        order is Print <==> order@ is Print,
        order is Exit <==> order@ is Exit,
        order is Supervise ==> order@->Supervise_0 == order->Supervise_0,
        order is RunSession ==> order@->RunSession_0 == order->RunSession_0@ && order@->RunSession_1
            == order->RunSession_1@,
        order is Print ==> order@->Print_0 == order->Print_0@,
        order is Exit ==> order@->Exit_0 == order->Exit_0,
        order is Exit ==> (order@->Exit_1 is Some <==> order->Exit_1 is Some),
        order is Exit && order->Exit_1 is Some ==> order@->Exit_1->0 == order->Exit_1->0@,
{
}

/// What is said of an outcome is said of the outcome.
pub proof fn the_view_of_an_outcome_is_the_outcome(outcome: Outcome)
    ensures
        outcome is Done <==> outcome@ is Done,
        outcome is Failed <==> outcome@ is Failed,
        outcome is Loaded <==> outcome@ is Loaded,
        outcome is Ended <==> outcome@ is Ended,
        outcome is Failed ==> outcome@->Failed_0 == outcome->Failed_0@,
        outcome is Loaded ==> outcome@->Loaded_0 == outcome->Loaded_0@,
        outcome is Ended ==> outcome@->Ended_0 == outcome->Ended_0,
{
}

/// What is said of the program is said of its fields, each by its own name.
pub proof fn the_view_of_the_program_is_its_fields(p: Program)
    ensures
        p@.phase == p.phase,
        p@.args == p.args@,
        p@.store == p.store@,
        p@.run_cmd == p.run_cmd@,
        p@.login_cmd == p.login_cmd@,
{
}

/// Where a session is to be run, the configuration is loaded and the supervisor seen to, whether
/// that succeeds or not, and then the session runs with the commands that arguments and
/// configuration name; its exit code is that of the program.
pub proof fn sessions_run_with_their_commands(
    p: ProgramView,
    cfg: ConfigView,
    seen: OutcomeView,
    code: i32,
)
    requires
        p.phase == Phase::Layout,
        p.args.mode == Mode::Root || p.args.mode == Mode::New || p.args.mode == Mode::Rr
            || p.args.mode == Mode::Last,
    ensures
        ({
            let p0 = p;
            let (p1, o1) = proceeded(p0, OutcomeView::Done);
            let (p2, o2) = proceeded(p1, OutcomeView::Loaded(cfg));
            let (p3, o3) = proceeded(p2, seen);
            let (p4, o4) = proceeded(p3, OutcomeView::Ended(code));
            &&& o1 == OrderView::LoadConfig
            &&& o2 == OrderView::EnsureSupervisor
            &&& o3 == OrderView::RunSession(
                run_command_of(p.args, cfg),
                login_command_of(p.args, cfg, run_command_of(p.args, cfg)),
            )
            &&& o4 == OrderView::Exit(code, None)
            &&& p3.args == p.args && p3.store == p.store
        }),
{
}

/// The list of the sessions comes after the configuration and the supervisor, too, and ends well.
pub proof fn sessions_are_listed(p: ProgramView, cfg: ConfigView, seen: OutcomeView)
    requires
        p.phase == Phase::Layout,
        p.args.mode == Mode::List,
    ensures
        ({
            let p0 = p;
            let (p1, o1) = proceeded(p0, OutcomeView::Done);
            let (p2, o2) = proceeded(p1, OutcomeView::Loaded(cfg));
            let (p3, o3) = proceeded(p2, seen);
            let (p4, o4) = proceeded(p3, OutcomeView::Done);
            &&& o1 == OrderView::LoadConfig
            &&& o2 == OrderView::EnsureSupervisor
            &&& o3 == OrderView::ListSessions
            &&& o4 == OrderView::Exit(0, None)
        }),
{
}

/// Once the layout is made, each command for the supervisor is carried out on its own, without the
/// configuration, and ends well; so does the first configuration, of which the path is printed.
pub proof fn commands_are_carried_out(p: ProgramView)
    requires
        p.phase == Phase::Layout,
    ensures
        ({
            let p0 = p;
            let (p1, o1) = proceeded(p0, OutcomeView::Done);
            let (p2, o2) = proceeded(p1, OutcomeView::Done);
            let (p3, o3) = proceeded(p2, OutcomeView::Done);
            &&& p.args.mode == Mode::SupervisorStart ==> o1 == OrderView::Supervise(
                SupervisorCommand::Start,
            ) && o2 == OrderView::Exit(0, None)
            &&& p.args.mode == Mode::SupervisorRestart ==> o1 == OrderView::Supervise(
                SupervisorCommand::Restart,
            ) && o2 == OrderView::Exit(0, None)
            &&& p.args.mode == Mode::SupervisorStop ==> o1 == OrderView::Supervise(
                SupervisorCommand::Stop,
            ) && o2 == OrderView::Exit(0, None)
            &&& p.args.mode == Mode::SupervisorDaemon ==> o1 == OrderView::RunDaemon && o2
                == OrderView::Exit(0, None)
            &&& p.args.mode == Mode::Supervisor ==> o1 == OrderView::Print(help_text()) && o2
                == OrderView::Exit(0, None)
            &&& p.args.mode == Mode::ConfigInit ==> o1 == OrderView::WriteConfig && o2
                == OrderView::Print(p.store.config_path) && o3 == OrderView::Exit(0, None)
        }),
{
}

/// Whatever fails ends the program with its message, but for the supervisor, without which the
/// sessions still run.
pub proof fn only_the_supervisor_may_fail(p: ProgramView, message: Seq<char>)
    ensures
        p.phase != Phase::Supervisor ==> proceeded(p, OutcomeView::Failed(message)).1
            == OrderView::Exit(1, Some(message)),
        p.phase == Phase::Supervisor ==> !(proceeded(p, OutcomeView::Failed(message)).1 is Exit),
{
}

} // verus!
