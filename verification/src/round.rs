//! One round of the supervisor: in which order it turns to the sessions and to the status, and
//! what it does for each.
use vstd::prelude::*;

use crate::daemon::{clock_text, gone, stepped, supervised, synced, Daemon, DaemonView, Event};
use crate::daemon::{started_daemon, DaemonSettings, EventView, ROUND_PAUSE_MS};
use crate::runtime::{refresh_due, start_due, CLOCK_LIMIT, SECOND_NS};
use crate::status::SessionView;
use crate::text::texts;
use crate::time::{instant_of, rfc3339_text, seconds_between, Timestamp};

verus! {

/// Where a round stands: what is looked at next for the session at its place, or at the end.
#[derive(Debug, Clone, Copy, PartialEq, Eq, Structural)]
pub enum RoundStage {
    Drain,
    Watch,
    Start,
    Ask,
    Probe,
    Flush,
    Pause,
    Over,
}

/// A round over the sessions.
#[derive(Debug)]
pub struct Round {
    pub aliases: Vec<String>,
    pub place: usize,
    pub stage: RoundStage,
}

pub struct RoundView {
    pub aliases: Seq<Seq<char>>,
    pub place: int,
    pub stage: RoundStage,
}

impl View for Round {
    type V = RoundView;

    open spec fn view(&self) -> RoundView {
        RoundView { aliases: texts(self.aliases@), place: self.place as int, stage: self.stage }
    }
}

/// What is to be done.
#[derive(Debug)]
pub enum Work {
    /// Nothing.
    Nothing,
    /// Hand over the messages that the server of this session has sent; where its stream is
    /// closed, end it and say that it failed.
    Drain(String),
    /// Look whether the server of this session has ended, and say that it failed where it has.
    Watch(String),
    /// Start the server of this session, and say whether it was started or failed.
    Start(String),
    /// Ask the server of this session for its rate limits, and say so.
    Ask(String),
    /// Probe this session, and say what was found.
    Probe(String),
    /// Write the status, and note that it was written.
    Flush,
    /// Wait for so many milliseconds.
    Pause(u64),
}

pub enum WorkView {
    Nothing,
    Drain(Seq<char>),
    Watch(Seq<char>),
    Start(Seq<char>),
    Ask(Seq<char>),
    Probe(Seq<char>),
    Flush,
    Pause(u64),
}

impl View for Work {
    type V = WorkView;

    open spec fn view(&self) -> WorkView {
        match self {
            Work::Nothing => WorkView::Nothing,
            Work::Drain(alias) => WorkView::Drain(alias@),
            Work::Watch(alias) => WorkView::Watch(alias@),
            Work::Start(alias) => WorkView::Start(alias@),
            Work::Ask(alias) => WorkView::Ask(alias@),
            Work::Probe(alias) => WorkView::Probe(alias@),
            Work::Flush => WorkView::Flush,
            Work::Pause(ms) => WorkView::Pause(*ms),
        }
    }
}

/// Whether the server of the session `alias` runs.
pub open spec fn server_runs(d: DaemonView, alias: Seq<char>) -> bool {
    d.runtimes.contains_key(alias) && d.runtimes[alias].managed
}

/// `work` where it is needed, and nothing where it is not.
pub open spec fn if_needed(needed: bool, work: WorkView) -> WorkView {
    if needed {
        work
    } else {
        WorkView::Nothing
    }
}

/// How a round goes on, what it changes in the supervisor, and what is to be done. The sessions
/// are looked after one by one: the health of a session is brought up to date, its messages are
/// handed over, and its server is watched, started and asked for its rate limits as needed. Then
/// the sessions without a server are probed, where that is due, and the status is written, where
/// that is due. A pause ends the round.
pub open spec fn round_step(r: RoundView, d: DaemonView, now: u128, clock: Timestamp) -> (
    RoundView,
    DaemonView,
    WorkView,
) {
    let alias = r.aliases[r.place];
    match r.stage {
        RoundStage::Drain => if r.place < r.aliases.len() {
            (
                RoundView { stage: RoundStage::Watch, ..r },
                stepped(d, alias, EventView::Round, now, clock),
                if_needed(server_runs(d, alias), WorkView::Drain(alias)),
            )
        } else if now >= d.next_probe {
            (
                RoundView { stage: RoundStage::Probe, place: 0, ..r },
                DaemonView {
                    next_probe: now + d.settings.probe_interval_sec * SECOND_NS,
                    ..d
                },
                WorkView::Nothing,
            )
        } else {
            (RoundView { stage: RoundStage::Flush, ..r }, d, WorkView::Nothing)
        },
        RoundStage::Watch => (
            RoundView { stage: RoundStage::Start, ..r },
            d,
            if_needed(server_runs(d, alias), WorkView::Watch(alias)),
        ),
        RoundStage::Start => (
            RoundView { stage: RoundStage::Ask, ..r },
            d,
            if_needed(
                supervised(d, alias) && start_due(d.runtimes[alias], d.sessions[alias], now),
                WorkView::Start(alias),
            ),
        ),
        RoundStage::Ask => (
            RoundView { stage: RoundStage::Drain, place: r.place + 1, ..r },
            d,
            if_needed(
                supervised(d, alias) && refresh_due(
                    d.runtimes[alias],
                    d.sessions[alias].last_rate_limit_update_at,
                    now,
                    clock,
                    d.settings.stale_sec,
                    d.settings.refresh_lead_sec,
                ),
                WorkView::Ask(alias),
            ),
        ),
        RoundStage::Probe => if r.place < r.aliases.len() {
            (
                RoundView { place: r.place + 1, ..r },
                d,
                if_needed(!server_runs(d, alias), WorkView::Probe(alias)),
            )
        } else {
            (RoundView { stage: RoundStage::Flush, ..r }, d, WorkView::Nothing)
        },
        RoundStage::Flush => (
            RoundView { stage: RoundStage::Pause, ..r },
            DaemonView { updated_at: clock_text(clock), daemon_pid: d.pid, ..d },
            if_needed(d.dirty && now >= d.next_flush, WorkView::Flush),
        ),
        RoundStage::Pause => (
            RoundView { stage: RoundStage::Over, ..r },
            d,
            WorkView::Pause(ROUND_PAUSE_MS),
        ),
        RoundStage::Over => (r, d, WorkView::Nothing),
    }
}

/// Whether a round stands at a session wherever it looks after one.
pub open spec fn in_place(r: RoundView) -> bool {
    &&& 0 <= r.place <= r.aliases.len()
    &&& r.stage == RoundStage::Watch || r.stage == RoundStage::Start || r.stage == RoundStage::Ask
        ==> r.place < r.aliases.len()
}

impl Round {
    /// Begins a round over the sessions `aliases`: what is known of other sessions is dropped, and
    /// their servers are to be stopped.
    pub fn begin(d: &mut Daemon, aliases: Vec<String>, now: u128) -> (r: (Round, Vec<String>))
        requires
            old(d).wf(),
        ensures
            final(d).wf(),
            final(d)@ == synced(old(d)@, texts(aliases@).to_set(), now),
            r.0@ == (RoundView {
                aliases: texts(aliases@),
                place: 0,
                stage: RoundStage::Drain,
            }),
            in_place(r.0@),
            texts(r.1@).no_duplicates(),
            texts(r.1@).to_set() == gone(old(d)@, texts(aliases@).to_set()),
    {
        let dropped = d.sync_aliases(aliases.as_slice(), now);
        (Round { aliases, place: 0, stage: RoundStage::Drain }, dropped)
    }

    /// Goes on with a round.
    pub fn step(&mut self, d: &mut Daemon, now: u128, clock: Timestamp) -> (work: Work)
        requires
            in_place(old(self)@),
            old(d).wf(),
            now <= CLOCK_LIMIT,
            clock.wf(),
        ensures
            in_place(final(self)@),
            final(d).wf(),
            (final(self)@, final(d)@, work@) == round_step(old(self)@, old(d)@, now, clock),
    {
        match self.stage {
            RoundStage::Drain => {
                if self.place < self.aliases.len() {
                    let alias = self.aliases[self.place].clone();
                    let runs = !d.needs_probe(alias.as_str());
                    d.step(alias.as_str(), &Event::Round, now, clock);
                    self.stage = RoundStage::Watch;
                    if runs {
                        Work::Drain(alias)
                    } else {
                        Work::Nothing
                    }
                } else if d.probes_due(now) {
                    d.note_probes(now);
                    self.stage = RoundStage::Probe;
                    self.place = 0;
                    Work::Nothing
                } else {
                    self.stage = RoundStage::Flush;
                    Work::Nothing
                }
            },
            RoundStage::Watch => {
                let alias = self.aliases[self.place].clone();
                self.stage = RoundStage::Start;
                if d.needs_probe(alias.as_str()) {
                    Work::Nothing
                } else {
                    Work::Watch(alias)
                }
            },
            RoundStage::Start => {
                let alias = self.aliases[self.place].clone();
                self.stage = RoundStage::Ask;
                if d.needs_start(alias.as_str(), now) {
                    Work::Start(alias)
                } else {
                    Work::Nothing
                }
            },
            RoundStage::Ask => {
                let alias = self.aliases[self.place].clone();
                self.stage = RoundStage::Drain;
                if self.place < self.aliases.len() {
                    self.place = self.place + 1;
                }
                if d.needs_refresh(alias.as_str(), now, clock) {
                    Work::Ask(alias)
                } else {
                    Work::Nothing
                }
            },
            RoundStage::Probe => {
                if self.place < self.aliases.len() {
                    let alias = self.aliases[self.place].clone();
                    self.place = self.place + 1;
                    if d.needs_probe(alias.as_str()) {
                        Work::Probe(alias)
                    } else {
                        Work::Nothing
                    }
                } else {
                    self.stage = RoundStage::Flush;
                    Work::Nothing
                }
            },
            RoundStage::Flush => {
                d.end_round(clock);
                self.stage = RoundStage::Pause;
                if d.flush_due(now) {
                    Work::Flush
                } else {
                    Work::Nothing
                }
            },
            RoundStage::Pause => {
                self.stage = RoundStage::Over;
                Work::Pause(ROUND_PAUSE_MS)
            },
            RoundStage::Over => Work::Nothing,
        }
    }

    /// Whether the round is over.
    pub fn is_over(&self) -> (r: bool)
        ensures
            r == (self@.stage == RoundStage::Over),
    {
        self.stage == RoundStage::Over
    }
}

// ---------------------------------------------------------------------------
// Laws
// ---------------------------------------------------------------------------
/// How many steps of a round lie ahead at most.
pub open spec fn steps_ahead(r: RoundView) -> int {
    let left = r.aliases.len() - r.place;
    match r.stage {
        RoundStage::Drain => 4 * left + r.aliases.len() + 5,
        RoundStage::Watch => 4 * left - 1 + r.aliases.len() + 5,
        RoundStage::Start => 4 * left - 2 + r.aliases.len() + 5,
        RoundStage::Ask => 4 * left - 3 + r.aliases.len() + 5,
        RoundStage::Probe => left + 3,
        RoundStage::Flush => 2,
        RoundStage::Pause => 1,
        RoundStage::Over => 0,
    }
}

/// Every round ends: each step leaves fewer steps ahead.
pub proof fn every_round_ends(r: RoundView, d: DaemonView, now: u128, clock: Timestamp)
    requires
        in_place(r),
        r.stage != RoundStage::Over,
    ensures
        0 <= steps_ahead(round_step(r, d, now, clock).0) < steps_ahead(r),
{
}

/// A session whose server runs is neither started nor probed, and only such a session is drained,
/// watched or asked.
pub proof fn work_fits_the_server(r: RoundView, d: DaemonView, now: u128, clock: Timestamp)
    ensures
        match round_step(r, d, now, clock).2 {
            WorkView::Start(alias) => !server_runs(d, alias),
            WorkView::Probe(alias) => !server_runs(d, alias),
            WorkView::Drain(alias) => server_runs(d, alias),
            WorkView::Watch(alias) => server_runs(d, alias),
            WorkView::Ask(alias) => server_runs(d, alias),
            _ => true,
        },
{
}

/// The status is written exactly where a round has come to its end, there is news, and the pause
/// since the last time that it was written is over.
pub proof fn news_is_written_in_time(r: RoundView, d: DaemonView, now: u128, clock: Timestamp)
    ensures
        round_step(r, d, now, clock).2 is Flush <==> r.stage == RoundStage::Flush && d.dirty && now
            >= d.next_flush,
{
}

/// A round of probes is due at the start, and then each time that the interval is over.
pub proof fn probes_come_at_the_start_and_periodically(
    r: RoundView,
    d: DaemonView,
    now: u128,
    clock: Timestamp,
    pid: i32,
    sessions: Map<Seq<char>, SessionView>,
    settings: DaemonSettings,
)
    ensures
        started_daemon(pid, sessions, now, clock, settings).next_probe == now,
        ({
            let (next, after, _) = round_step(r, d, now, clock);
            &&& r.stage == RoundStage::Drain && r.place >= r.aliases.len() ==> (next.stage
                == RoundStage::Probe <==> now >= d.next_probe)
            &&& next.stage == RoundStage::Probe && r.stage != RoundStage::Probe
                ==> after.next_probe == now + d.settings.probe_interval_sec * SECOND_NS
        }),
{
}

/// A server that runs is asked for the rate limits before they are stale: as soon as they would be
/// within the lead, unless it was asked within the cooldown.
pub proof fn limits_are_refreshed_ahead(r: RoundView, d: DaemonView, now: u128, clock: Timestamp)
    requires
        r.stage == RoundStage::Ask,
        supervised(d, r.aliases[r.place]),
        server_runs(d, r.aliases[r.place]),
        now >= d.runtimes[r.aliases[r.place]].next_refresh_at,
    ensures
        match instant_of(d.sessions[r.aliases[r.place]].last_rate_limit_update_at) {
            Some(at) => seconds_between(at, clock) >= d.settings.stale_sec
                - d.settings.refresh_lead_sec <==> round_step(r, d, now, clock).2 is Ask,
            None => round_step(r, d, now, clock).2 is Ask,
        },
{
}

/// What is said of a round and of its work is said of the round and of the work.
pub proof fn the_view_of_a_round_is_its_fields(r: Round, i: int)
    requires
        0 <= i < r.aliases@.len(),
    ensures
        r@.aliases.len() == r.aliases@.len(),
        r@.aliases[i] == r.aliases@[i]@,
        r@.place == r.place,
        r@.stage == r.stage,
{
}

/// Work names the session that it is for.
pub proof fn the_view_of_work_is_the_work(work: Work)
    ensures
        work is Nothing <==> work@ is Nothing,
        work is Drain <==> work@ is Drain,
        work is Watch <==> work@ is Watch,
        work is Start <==> work@ is Start,
        work is Ask <==> work@ is Ask,
        work is Probe <==> work@ is Probe,
        work is Flush <==> work@ is Flush,
        work is Pause <==> work@ is Pause,
        work is Drain ==> work@->Drain_0 == work->Drain_0@,
        work is Watch ==> work@->Watch_0 == work->Watch_0@,
        work is Start ==> work@->Start_0 == work->Start_0@,
        work is Ask ==> work@->Ask_0 == work->Ask_0@,
        work is Probe ==> work@->Probe_0 == work->Probe_0@,
        work is Pause ==> work@->Pause_0 == work->Pause_0,
{
}

/// A round turns to its sessions one after the other: for each it takes the messages in, looks
/// whether the server still runs, starts it and asks for its rate limits. Behind the last session
/// it goes through all of them once more to probe, where that is due, and then writes the status,
/// pauses and is over.
pub proof fn rounds_go_in_order(r: RoundView, d: DaemonView, now: u128, clock: Timestamp)
    requires
        in_place(r),
    ensures
        ({
            let (next, after, work) = round_step(r, d, now, clock);
            &&& next.aliases == r.aliases
            &&& r.stage == RoundStage::Drain && r.place < r.aliases.len() ==> next.stage
                == RoundStage::Watch && next.place == r.place
            &&& r.stage == RoundStage::Watch ==> next.stage == RoundStage::Start && next.place
                == r.place
            &&& r.stage == RoundStage::Start ==> next.stage == RoundStage::Ask && next.place
                == r.place
            &&& r.stage == RoundStage::Ask ==> next.stage == RoundStage::Drain && next.place
                == r.place + 1
            &&& r.stage == RoundStage::Drain && r.place == r.aliases.len() && now >= d.next_probe
                ==> next.stage == RoundStage::Probe && next.place == 0
            &&& r.stage == RoundStage::Drain && r.place == r.aliases.len() && now < d.next_probe
                ==> next.stage == RoundStage::Flush
            &&& r.stage == RoundStage::Probe && r.place < r.aliases.len() ==> next.stage
                == RoundStage::Probe && next.place == r.place + 1
            &&& r.stage == RoundStage::Probe && r.place == r.aliases.len() ==> next.stage
                == RoundStage::Flush
            &&& r.stage == RoundStage::Flush ==> next.stage == RoundStage::Pause
            &&& r.stage == RoundStage::Pause ==> next.stage == RoundStage::Over && work
                == WorkView::Pause(200)
            &&& r.stage == RoundStage::Over ==> next == r && after == d && work is Nothing
        }),
{
}

/// What a round does for a session: it takes messages in and watches where the server runs, starts
/// it where that is due, asks where that is due, and probes where no server runs; each exactly then,
/// and each for the session at its place.
pub proof fn work_is_done_where_it_is_needed(
    r: RoundView,
    d: DaemonView,
    now: u128,
    clock: Timestamp,
)
    requires
        in_place(r),
        r.place < r.aliases.len(),
    ensures
        ({
            let alias = r.aliases[r.place];
            let runs = d.runtimes.contains_key(alias) && d.runtimes[alias].managed;
            let known = d.runtimes.contains_key(alias) && d.sessions.contains_key(alias);
            let (next, after, work) = round_step(r, d, now, clock);
            &&& r.stage == RoundStage::Drain && runs ==> work == WorkView::Drain(alias)
            &&& r.stage == RoundStage::Watch && runs ==> work == WorkView::Watch(alias)
            &&& r.stage == RoundStage::Start && known && !d.runtimes[alias].managed
                && d.sessions[alias].health == "healthy"@ && now
                >= d.runtimes[alias].next_restart_at ==> work == WorkView::Start(alias)
            &&& r.stage == RoundStage::Ask && known && refresh_due(
                d.runtimes[alias],
                d.sessions[alias].last_rate_limit_update_at,
                now,
                clock,
                d.settings.stale_sec,
                d.settings.refresh_lead_sec,
            ) ==> work == WorkView::Ask(alias)
            &&& r.stage == RoundStage::Probe && !runs ==> work == WorkView::Probe(alias)
            &&& work is Drain || work is Watch || work is Ask ==> runs
            &&& work is Start || work is Probe ==> !runs
            &&& work is Start ==> d.sessions[alias].health == "healthy"@ && now
                >= d.runtimes[alias].next_restart_at
        }),
{
}

/// A step of a round changes the supervisor only at three places: at the first look at a session,
/// where a rest may end; where probes begin, which puts off the next ones by their interval; and
/// where the status is due, which is dated.
pub proof fn rounds_change_little(r: RoundView, d: DaemonView, now: u128, clock: Timestamp)
    requires
        in_place(r),
    ensures
        ({
            let (next, after, work) = round_step(r, d, now, clock);
            &&& after.dirty == d.dirty
            &&& after.next_flush == d.next_flush
            &&& after.settings == d.settings
            &&& r.stage == RoundStage::Drain && r.place < r.aliases.len() ==> after == stepped(
                d,
                r.aliases[r.place],
                EventView::Round,
                now,
                clock,
            )
            &&& r.stage == RoundStage::Drain && r.place == r.aliases.len() && now >= d.next_probe
                ==> after == (DaemonView {
                next_probe: now + d.settings.probe_interval_sec * 1_000_000_000,
                ..d
            })
            &&& r.stage == RoundStage::Drain && r.place == r.aliases.len() && now < d.next_probe
                ==> after == d
            &&& r.stage == RoundStage::Flush ==> after == (DaemonView {
                updated_at: rfc3339_text(clock.secs, clock.nanos),
                daemon_pid: d.pid,
                ..d
            })
            &&& r.stage != RoundStage::Drain && r.stage != RoundStage::Flush ==> after == d
        }),
{
}

/// What a server sends, what a probe finds, a failure and a start are written: the first end of a
/// round at which the status may be written again orders it, whatever steps of the round come in
/// between.
pub proof fn changes_are_written_at_the_end_of_a_round(
    d: DaemonView,
    alias: Seq<char>,
    event: EventView,
    now: u128,
    clock: Timestamp,
    r: RoundView,
    later: u128,
    clock_later: Timestamp,
)
    requires
        supervised(d, alias),
        event is Message || event is Probed || event is Failed || event is Started,
        in_place(r),
    ensures
        ({
            let after = stepped(d, alias, event, now, clock);
            let (_, next, work) = round_step(r, after, later, clock_later);
            &&& r.stage == RoundStage::Flush && later >= d.next_flush ==> work is Flush
            &&& next.dirty && next.next_flush == d.next_flush
        }),
{
}

} // verus!
