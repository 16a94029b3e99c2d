//! Stopping the hub, or one agent: what is said and done, step by step.

use vstd::prelude::*;

use crate::hub;
use crate::notes;
use crate::hub::{agents_with_id, copy_agents, count_hubs, stopped_label};
use crate::notes::{cleanup_skipped_note, no_acts, one_act, push_act, Act};
use crate::protocol::{AgentInfo, CliMessage};
use crate::text::{copy_of, joined};

verus! {

/// What is to be stopped.
#[derive(Debug, Clone)]
pub enum Target {
    Hub,
    /// The agent with this id.
    Agent(String),
}

/// What happened, as the caller reports it.
#[derive(Debug, Clone)]
pub enum StopEvent {
    Begin,
    /// The agents that are running.
    Listed(Vec<AgentInfo>),
    ListFailed,
    Connected,
    ConnectFailed,
    Stopped,
    StopFailed(String),
    CleanedUp,
}

/// What the caller does next.
#[derive(Debug, Clone)]
pub enum StopTodo {
    Nothing,
    /// Ask a running hub for its agents.
    ListAgents,
    /// Connect to a running hub.
    Connect,
    Send(CliMessage),
    /// Offer to clean up the worktrees that the stopped agents leave; `all` were running before.
    CleanUp { stopped: Vec<AgentInfo>, all: Vec<AgentInfo> },
    Return,
    Exit(i32),
}

pub ghost enum StopTodoView {
    Nothing,
    ListAgents,
    Connect,
    Send(CliMessage),
    CleanUp { stopped: Seq<AgentInfo>, all: Seq<AgentInfo> },
    Return,
    Exit(i32),
}

impl View for StopTodo {
    type V = StopTodoView;

    open spec fn view(&self) -> StopTodoView {
        match *self {
            StopTodo::Nothing => StopTodoView::Nothing,
            StopTodo::ListAgents => StopTodoView::ListAgents,
            StopTodo::Connect => StopTodoView::Connect,
            StopTodo::Send(message) => StopTodoView::Send(message),
            StopTodo::CleanUp { stopped, all } => StopTodoView::CleanUp {
                stopped: stopped@,
                all: all@,
            },
            StopTodo::Return => StopTodoView::Return,
            StopTodo::Exit(code) => StopTodoView::Exit(code),
        }
    }
}

/// How far stopping has come. `all` are the agents that were running when it began.
#[derive(Debug, Clone)]
pub enum StopPhase {
    Ready,
    Listing,
    /// Counting the hubs that will stop.
    Counting { all: Vec<AgentInfo> },
    Connecting { all: Vec<AgentInfo>, hubs: usize },
    Stopping { all: Vec<AgentInfo>, hubs: usize },
    CleaningUp,
    Over,
}

pub ghost enum StopPhaseView {
    Ready,
    Listing,
    Counting { all: Seq<AgentInfo> },
    Connecting { all: Seq<AgentInfo>, hubs: int },
    Stopping { all: Seq<AgentInfo>, hubs: int },
    CleaningUp,
    Over,
}

impl View for StopPhase {
    type V = StopPhaseView;

    open spec fn view(&self) -> StopPhaseView {
        match *self {
            StopPhase::Ready => StopPhaseView::Ready,
            StopPhase::Listing => StopPhaseView::Listing,
            StopPhase::Counting { all } => StopPhaseView::Counting { all: all@ },
            StopPhase::Connecting { all, hubs } => StopPhaseView::Connecting {
                all: all@,
                hubs: hubs as int,
            },
            StopPhase::Stopping { all, hubs } => StopPhaseView::Stopping {
                all: all@,
                hubs: hubs as int,
            },
            StopPhase::CleaningUp => StopPhaseView::CleaningUp,
            StopPhase::Over => StopPhaseView::Over,
        }
    }
}

impl Target {
    /// The message that stops it.
    pub open spec fn request(self) -> CliMessage {
        match self {
            Target::Hub => CliMessage::StopHub,
            Target::Agent(id) => CliMessage::StopAgent { id },
        }
    }

    /// What is said meanwhile.
    pub open spec fn underway(self) -> Seq<char> {
        match self {
            Target::Hub => "stopping clust hub"@,
            Target::Agent(id) => "stopping agent "@ + id@,
        }
    }

    /// What is said in the end, where agents ran in so many hubs.
    pub open spec fn done(self, hubs: int) -> Seq<char> {
        match self {
            Target::Hub => if hubs > 1 {
                "clust hubs stopped"@
            } else {
                "clust hub stopped"@
            },
            Target::Agent(id) => "agent "@ + id@ + " stopped"@,
        }
    }

    /// What is said where it could not be stopped.
    pub open spec fn failed(self, e: Seq<char>) -> Seq<char> {
        match self {
            Target::Hub => "failed to stop clust hub: "@ + e,
            Target::Agent(id) => "failed to stop agent "@ + id@ + ": "@ + e,
        }
    }

    /// Which of the agents stop.
    pub open spec fn stops(self, all: Seq<AgentInfo>) -> Seq<AgentInfo> {
        match self {
            Target::Hub => all,
            Target::Agent(id) => hub::with_id(all, id@),
        }
    }

    fn message(&self) -> (m: CliMessage)
        ensures
            m == self.request(),
    {
        match self {
            Target::Hub => CliMessage::StopHub,
            Target::Agent(id) => CliMessage::StopAgent { id: id.clone() },
        }
    }

    fn underway_text(&self) -> (s: String)
        ensures
            s@ == self.underway(),
    {
        match self {
            Target::Hub => copy_of("stopping clust hub"),
            Target::Agent(id) => joined("stopping agent ", id.as_str()),
        }
    }

    fn done_text(&self, hubs: usize) -> (s: String)
        ensures
            s@ == self.done(hubs as int),
    {
        match self {
            Target::Hub => copy_of(stopped_label(hubs)),
            Target::Agent(id) => {
                let mut s = joined("agent ", id.as_str());
                s.push_str(" stopped");
                s
            },
        }
    }

    fn failed_text(&self, e: &str) -> (s: String)
        ensures
            s@ == self.failed(e@),
    {
        match self {
            Target::Hub => joined("failed to stop clust hub: ", e),
            Target::Agent(id) => {
                let mut s = joined("failed to stop agent ", id.as_str());
                s.push_str(": ");
                s.push_str(e);
                s
            },
        }
    }

    fn stopped_of(&self, all: &Vec<AgentInfo>) -> (stopped: Vec<AgentInfo>)
        ensures
            stopped@ == self.stops(all@),
    {
        match self {
            Target::Hub => copy_agents(all),
            Target::Agent(id) => agents_with_id(all, id.as_str()),
        }
    }
}

/// Stopping on its way.
pub struct StopRun {
    pub target: Target,
    pub phase: StopPhase,
}

/// The next phase, what is printed, and what to do.
pub type StopOutcome = (StopPhaseView, Seq<notes::ActView>, StopTodoView);

impl StopRun {
    /// The agents have been asked for, and these are they. What was `said` comes first.
    pub open spec fn begun(self, all: Seq<AgentInfo>, said: Seq<notes::ActView>) -> StopOutcome {
        let acts = said.push(notes::ActView::Spin(self.target.underway()));
        match self.target {
            Target::Hub => (StopPhaseView::Counting { all }, acts, StopTodoView::ListAgents),
            Target::Agent(_) => (
                StopPhaseView::Connecting { all, hubs: 1 },
                acts,
                StopTodoView::Connect,
            ),
        }
    }

    /// It is over with, and that is said.
    pub open spec fn ended(self, all: Seq<AgentInfo>, text: Seq<char>) -> StopOutcome {
        (
            StopPhaseView::CleaningUp,
            seq![notes::ActView::SpinOk(text)],
            StopTodoView::CleanUp { stopped: self.target.stops(all), all },
        )
    }

    /// What comes next. The agents are asked for before anything stops, so that their worktrees
    /// are known; where that fails the user hears of it. That no hub runs is no failure.
    pub open spec fn next(self, event: StopEvent) -> StopOutcome {
        let none = Seq::<notes::ActView>::empty();
        match (self.phase@, event) {
            (StopPhaseView::Ready, StopEvent::Begin) => (
                StopPhaseView::Listing,
                seq![notes::ActView::Blank],
                StopTodoView::ListAgents,
            ),
            (StopPhaseView::Listing, StopEvent::Listed(all)) => self.begun(all@, none),
            (StopPhaseView::Listing, StopEvent::ListFailed) => self.begun(
                Seq::empty(),
                seq![notes::ActView::Print(notes::cleanup_skipped())],
            ),
            (StopPhaseView::Counting { all }, StopEvent::Listed(now)) => (
                StopPhaseView::Connecting { all, hubs: hub::hubs_of(now@) },
                none,
                StopTodoView::Connect,
            ),
            (StopPhaseView::Counting { all }, StopEvent::ListFailed) => (
                StopPhaseView::Connecting { all, hubs: 1 },
                none,
                StopTodoView::Connect,
            ),
            (StopPhaseView::Connecting { all, hubs }, StopEvent::Connected) => (
                StopPhaseView::Stopping { all, hubs },
                none,
                StopTodoView::Send(self.target.request()),
            ),
            (StopPhaseView::Connecting { all, .. }, StopEvent::ConnectFailed) => self.ended(
                all,
                "clust hub is not running"@,
            ),
            (StopPhaseView::Stopping { all, hubs }, StopEvent::Stopped) => self.ended(
                all,
                self.target.done(hubs),
            ),
            (StopPhaseView::Stopping { .. }, StopEvent::StopFailed(e)) => (
                StopPhaseView::Over,
                seq![notes::ActView::SpinFailed(self.target.failed(e@))],
                StopTodoView::Exit(1),
            ),
            (StopPhaseView::CleaningUp, StopEvent::CleanedUp) => (
                StopPhaseView::Over,
                none,
                StopTodoView::Return,
            ),
            _ => (self.phase@, none, StopTodoView::Nothing),
        }
    }

    pub fn new(target: Target) -> (run: Self)
        ensures
            run == (StopRun { target, phase: StopPhase::Ready }),
    {
        StopRun { target, phase: StopPhase::Ready }
    }

    fn begin(&mut self, all: Vec<AgentInfo>, said: Vec<Act>) -> (outcome: (Vec<Act>, StopTodo))
        ensures
            final(self).target == old(self).target,
            (final(self).phase@, notes::acts_view(outcome.0@), outcome.1@) == old(self).begun(
                all@,
                notes::acts_view(said@),
            ),
    {
        let mut acts = said;
        push_act(&mut acts, Act::Spin(self.target.underway_text()));
        match self.target {
            Target::Hub => {
                self.phase = StopPhase::Counting { all };
                (acts, StopTodo::ListAgents)
            },
            Target::Agent(_) => {
                self.phase = StopPhase::Connecting { all, hubs: 1 };
                (acts, StopTodo::Connect)
            },
        }
    }

    fn end(&mut self, all: Vec<AgentInfo>, text: String) -> (outcome: (Vec<Act>, StopTodo))
        ensures
            final(self).target == old(self).target,
            (final(self).phase@, notes::acts_view(outcome.0@), outcome.1@) == old(self).ended(
                all@,
                text@,
            ),
    {
        let stopped = self.target.stopped_of(&all);
        self.phase = StopPhase::CleaningUp;
        (one_act(Act::SpinOk(text)), StopTodo::CleanUp { stopped, all })
    }

    /// Takes in what happened, and says what to print and what to do next.
    pub fn step(&mut self, event: StopEvent) -> (outcome: (Vec<Act>, StopTodo))
        ensures
            final(self).target == old(self).target,
            (final(self).phase@, notes::acts_view(outcome.0@), outcome.1@) == old(self).next(event),
    {
        let mut phase = StopPhase::Over;
        std::mem::swap(&mut phase, &mut self.phase);
        match (phase, event) {
            (StopPhase::Ready, StopEvent::Begin) => {
                self.phase = StopPhase::Listing;
                (one_act(Act::Blank), StopTodo::ListAgents)
            },
            (StopPhase::Listing, StopEvent::Listed(all)) => self.begin(all, no_acts()),
            (StopPhase::Listing, StopEvent::ListFailed) => {
                let none: Vec<AgentInfo> = Vec::new();
                assert(none@ =~= Seq::<AgentInfo>::empty());
                self.begin(none, one_act(Act::Print(cleanup_skipped_note())))
            },
            (StopPhase::Counting { all }, StopEvent::Listed(now)) => {
                self.phase = StopPhase::Connecting { all, hubs: count_hubs(&now) };
                (no_acts(), StopTodo::Connect)
            },
            (StopPhase::Counting { all }, StopEvent::ListFailed) => {
                self.phase = StopPhase::Connecting { all, hubs: 1 };
                (no_acts(), StopTodo::Connect)
            },
            (StopPhase::Connecting { all, hubs }, StopEvent::Connected) => {
                self.phase = StopPhase::Stopping { all, hubs };
                (no_acts(), StopTodo::Send(self.target.message()))
            },
            (StopPhase::Connecting { all, .. }, StopEvent::ConnectFailed) => {
                self.end(all, copy_of("clust hub is not running"))
            },
            (StopPhase::Stopping { all, hubs }, StopEvent::Stopped) => {
                let text = self.target.done_text(hubs);
                self.end(all, text)
            },
            (StopPhase::Stopping { .. }, StopEvent::StopFailed(e)) => {
                let text = self.target.failed_text(e.as_str());
                (one_act(Act::SpinFailed(text)), StopTodo::Exit(1))
            },
            (StopPhase::CleaningUp, StopEvent::CleanedUp) => (no_acts(), StopTodo::Return),
            (phase, _) => {
                self.phase = phase;
                (no_acts(), StopTodo::Nothing)
            },
        }
    }
}

// ── Laws ───────────────────────────────────────────────────────────

/// Stopping fails only where a hub was reached and would not stop what it was told to.
pub proof fn only_refused_stops_fail(run: StopRun, event: StopEvent)
    requires
        run.next(event).2 is Exit,
    ensures
        run.phase@ is Stopping,
        event is StopFailed,
        run.next(event).2 == StopTodoView::Exit(1),
{
}

/// Nothing is told to stop before the running agents have been asked for.
pub proof fn agents_are_listed_before_anything_stops(run: StopRun, event: StopEvent)
    requires
        run.next(event).2 is Send,
    ensures
        run.phase@ is Connecting,
        event is Connected,
        run.next(event).2 == StopTodoView::Send(run.target.request()),
{
}

/// The hub is told to stop itself, or to stop the agent that was meant.
pub proof fn what_was_meant_is_stopped(target: Target)
    ensures
        target is Hub ==> target.request() is StopHub,
        target matches Target::Agent(id) ==> target.request() is StopAgent
            && target.request()->StopAgent_id == id,
{
}

/// After a stop the worktrees of the agents that went with it are offered for cleaning up: of all
/// agents where the hub was stopped, else of the one that was meant. Then the command ends well.
pub proof fn stopped_agents_are_cleaned_up_after(run: StopRun, all: Seq<AgentInfo>, hubs: int)
    requires
        run.phase@ == (StopPhaseView::Stopping { all, hubs }),
    ensures
        ({
            let (phase, acts, todo) = run.next(StopEvent::Stopped);
            &&& phase is CleaningUp
            &&& todo is CleanUp && todo->CleanUp_all == all
            &&& run.target is Hub ==> todo->CleanUp_stopped == all
            &&& run.target matches Target::Agent(id) ==> forall|i: int|
                0 <= i < todo->CleanUp_stopped.len() ==> (#[trigger] todo->CleanUp_stopped[i]).id@
                    == id@ && all.contains(todo->CleanUp_stopped[i])
        }),
{
    if let Target::Agent(id) = run.target {
        let keep = |a: AgentInfo| a.id@ == id@;
        all.filter_lemma(keep);
        let stopped = hub::with_id(all, id@);
        assert forall|i: int| 0 <= i < stopped.len() implies (#[trigger] stopped[i]).id@ == id@
            && all.contains(stopped[i]) by {
            assert(all.filter(keep)[i] == stopped[i]);
            assert(keep(all.filter(keep)[i]));
            crate::hub::lemma_filtered_is_kept(all, keep, i);
        }
    }
}

/// Of the agents that run, the one that is meant is among those that are stopped.
pub proof fn meant_agents_are_found(all: Seq<AgentInfo>, i: int)
    requires
        0 <= i < all.len(),
    ensures
        Target::Agent(all[i].id).stops(all).contains(all[i]),
        Target::Hub.stops(all) == all,
{
    let keep = |a: AgentInfo| a.id@ == all[i].id@;
    all.filter_lemma(keep);
    assert(keep(all[i]));
}

/// Where no hub runs there is nothing to stop, and that is no failure; where a hub would not stop,
/// the reason is given, and the command fails.
pub proof fn ends_of_stopping(run: StopRun, e: String)
    ensures
        run.phase@ is Connecting ==> run.next(StopEvent::ConnectFailed).0 is CleaningUp,
        run.phase@ is CleaningUp ==> run.next(StopEvent::CleanedUp).2 is Return,
        run.phase@ is Stopping ==> ({
            let (phase, acts, todo) = run.next(StopEvent::StopFailed(e));
            &&& todo is Exit && todo->Exit_0 != 0
            &&& acts.len() == 1 && acts[0] is SpinFailed
            &&& acts[0]->SpinFailed_0.skip(acts[0]->SpinFailed_0.len() - e@.len()) == e@
        }),
{
    if run.phase@ is Stopping {
        let text = run.target.failed(e@);
        assert(text.skip(text.len() - e@.len()) =~= e@);
    }
}

/// What is being stopped, and what was, is named: an agent by its id, and hubs in the plural
/// where there was more than one.
pub proof fn what_is_stopped_is_named(target: Target, hubs: int)
    ensures
        ({
            let now = target.underway();
            let done = target.done(hubs);
            &&& target is Agent ==> {
                let id = target->Agent_0@;
                &&& now.len() == 15 + id.len()
                &&& now.skip(15) == id
                &&& done.len() == 14 + id.len()
                &&& done.subrange(6, 6 + id.len() as int) == id
            }
            &&& target is Hub && hubs > 1 ==> done[9] == 's'
            &&& target is Hub && hubs <= 1 ==> done[9] == ' '
        }),
        ({
            let told = target.failed(Seq::empty());
            target is Agent ==> told.subrange(21, 21 + target->Agent_0@.len() as int)
                == target->Agent_0@
        }),
{
    reveal_strlit("stopping agent ");
    reveal_strlit("agent ");
    reveal_strlit(" stopped");
    reveal_strlit("clust hubs stopped");
    reveal_strlit("clust hub stopped");
    reveal_strlit("failed to stop agent ");
    if target is Agent {
        let id = target->Agent_0@;
        assert(target.underway().skip(15) =~= id);
        assert(target.done(hubs).subrange(6, 6 + id.len() as int) =~= id);
        assert(target.failed(Seq::empty()).subrange(21, 21 + id.len() as int) =~= id);
    }
}

} // verus!
