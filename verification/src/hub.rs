//! Reaching the hub: when to start it, how long to wait for it, and what its answers mean.

use vstd::prelude::*;

use crate::modal;
use crate::overview;
use crate::text;
use crate::modal::directory_path;
use crate::protocol::{AgentInfo, HubMessage};
use crate::text::{chars_of, copy_of, joined, push_decimal, starts_with, text_eq};

verus! {

/// How long to wait for the old hub's socket file to disappear, in milliseconds.
pub const SOCKET_REMOVAL_TIMEOUT: u64 = 2000;

/// How long to wait for a freshly spawned hub to bind the socket, in milliseconds.
pub const HUB_BIND_TIMEOUT: u64 = 2000;

/// Polling cadence for both waits, in milliseconds.
pub const POLL_INTERVAL: u64 = 50;

/// Initial settle delay after spawning the hub before the first connect attempt, in
/// milliseconds.
pub const SPAWN_INITIAL_DELAY: u64 = 50;

// ── Waiting ────────────────────────────────────────────────────────

/// What to do while waiting.
#[derive(Debug, Clone, Copy, PartialEq, Eq, Structural)]
pub enum WaitStep {
    /// What was waited for is there.
    Ready,
    /// Sleep for the polling interval and look again.
    Sleep,
    TimedOut,
}

/// A wait with an end.
#[derive(Debug, Clone, Copy, PartialEq, Eq, Structural)]
pub struct Wait {
    pub elapsed: u64,
    pub limit: u64,
}

impl Wait {
    pub open spec fn wf(self) -> bool {
        self.limit <= u64::MAX - POLL_INTERVAL && self.elapsed <= self.limit + POLL_INTERVAL
    }

    pub open spec fn next(self, ready: bool) -> (Wait, WaitStep) {
        if ready {
            (self, WaitStep::Ready)
        } else if self.elapsed < self.limit {
            (
                Wait { elapsed: (self.elapsed + POLL_INTERVAL) as u64, ..self },
                WaitStep::Sleep,
            )
        } else {
            (self, WaitStep::TimedOut)
        }
    }

    pub fn new(limit: u64) -> (w: Self)
        requires
            limit <= u64::MAX - POLL_INTERVAL,
        ensures
            w.wf(),
            w == (Wait { elapsed: 0, limit }),
    {
        Wait { elapsed: 0, limit }
    }

    /// One look: `ready` is whether what is waited for is there. After the last interval there
    /// is one more look before giving up.
    pub fn step(&mut self, ready: bool) -> (step: WaitStep)
        requires
            old(self).wf(),
        ensures
            final(self).wf(),
            (*final(self), step) == old(self).next(ready),
    {
        if ready {
            WaitStep::Ready
        } else if self.elapsed < self.limit {
            self.elapsed += POLL_INTERVAL;
            WaitStep::Sleep
        } else {
            WaitStep::TimedOut
        }
    }

    /// The wait after `n` looks in vain.
    pub open spec fn after(self, n: nat) -> Wait
        decreases n,
    {
        if n == 0 {
            self
        } else {
            self.after((n - 1) as nat).next(false).0
        }
    }
}

/// A wait for two seconds gives up with the forty-first look in vain, and not before.
pub proof fn wait_ends_in_time(n: nat)
    ensures
        ({
            let w = Wait { elapsed: 0, limit: HUB_BIND_TIMEOUT };
            &&& n <= 40 ==> w.after(n).elapsed == 50 * n
            &&& n < 40 ==> w.after(n).next(false).1 == WaitStep::Sleep
            &&& n >= 40 ==> w.after(n).next(false).1 == WaitStep::TimedOut
            &&& n >= 40 ==> w.after(n).elapsed == 2000
            &&& w.after(n).limit == HUB_BIND_TIMEOUT
        }),
    decreases n,
{
    if n > 0 {
        wait_ends_in_time((n - 1) as nat);
    }
}

/// What is said when the socket of an old hub stays.
pub fn removal_timed_out(sock: &str) -> (s: String)
    ensures
        s@ == "timed out waiting for stale hub to release socket at "@ + sock@,
{
    joined("timed out waiting for stale hub to release socket at ", sock)
}

/// What is said when a new hub does not bind its socket.
pub open spec fn bind_timeout_text(log: Seq<char>) -> Seq<char> {
    "hub spawned but did not bind socket within "@ + text::decimal((HUB_BIND_TIMEOUT / 1000) as nat)
        + "s — check "@ + log + " for errors"@
}

pub fn bind_timed_out(log: &str) -> (s: String)
    ensures
        s@ == bind_timeout_text(log@),
{
    let mut s = copy_of("hub spawned but did not bind socket within ");
    push_decimal(&mut s, (HUB_BIND_TIMEOUT / 1000) as usize);
    s.push_str("s — check ");
    s.push_str(log);
    s.push_str(" for errors");
    s
}

// ── Connecting ─────────────────────────────────────────────────────

/// What happened on the way to a connection.
#[derive(Debug, Clone, Copy, PartialEq, Eq, Structural)]
pub enum ReachEvent {
    Begin,
    /// Something listens on the socket, or nothing does.
    Answered(bool),
    /// The hub speaks the same protocol, or it does not.
    Compatible(bool),
    /// The old hub has been told to stop, if it could be reached.
    ToldToStop,
    /// The old hub's socket is gone, or it stays.
    SocketGone(bool),
    /// A hub has been started, or could not be.
    Spawned(bool),
    /// The new hub accepts connections, or it does not.
    Bound(bool),
}

/// What to do on the way to a connection.
#[derive(Debug, Clone, Copy, PartialEq, Eq, Structural)]
pub enum ReachStep {
    Nothing,
    TryConnect,
    CheckProtocol,
    StopOldHub,
    AwaitRemoval,
    SpawnHub,
    AwaitBind,
    /// Connect once more and use that connection.
    UseFresh,
    /// Use the connection that waiting for the new hub gave.
    UseBound,
    /// Give up; the last thing that failed says why.
    Fail,
}

#[derive(Debug, Clone, Copy, PartialEq, Eq, Structural)]
pub enum ReachPhase {
    Ready,
    Trying,
    Checking,
    Stopping,
    Removing,
    Spawning,
    Binding,
    Over,
}

/// Connecting to the hub, auto-spawning it if not running.
/// A stale hub, by its protocol version, is stopped first.
#[derive(Debug, Clone, Copy, PartialEq, Eq, Structural)]
pub struct Reach {
    pub phase: ReachPhase,
}

impl Reach {
    pub open spec fn next(self, event: ReachEvent) -> (ReachPhase, ReachStep) {
        match (self.phase, event) {
            (ReachPhase::Ready, ReachEvent::Begin) => (ReachPhase::Trying, ReachStep::TryConnect),
            (ReachPhase::Trying, ReachEvent::Answered(yes)) => if yes {
                (ReachPhase::Checking, ReachStep::CheckProtocol)
            } else {
                (ReachPhase::Spawning, ReachStep::SpawnHub)
            },
            (ReachPhase::Checking, ReachEvent::Compatible(yes)) => if yes {
                (ReachPhase::Over, ReachStep::UseFresh)
            } else {
                (ReachPhase::Stopping, ReachStep::StopOldHub)
            },
            (ReachPhase::Stopping, ReachEvent::ToldToStop) => (
                ReachPhase::Removing,
                ReachStep::AwaitRemoval,
            ),
            (ReachPhase::Removing, ReachEvent::SocketGone(yes)) => if yes {
                (ReachPhase::Spawning, ReachStep::SpawnHub)
            } else {
                (ReachPhase::Over, ReachStep::Fail)
            },
            (ReachPhase::Spawning, ReachEvent::Spawned(yes)) => if yes {
                (ReachPhase::Binding, ReachStep::AwaitBind)
            } else {
                (ReachPhase::Over, ReachStep::Fail)
            },
            (ReachPhase::Binding, ReachEvent::Bound(yes)) => if yes {
                (ReachPhase::Over, ReachStep::UseBound)
            } else {
                (ReachPhase::Over, ReachStep::Fail)
            },
            _ => (self.phase, ReachStep::Nothing),
        }
    }

    pub fn new() -> (r: Self)
        ensures
            r == (Reach { phase: ReachPhase::Ready }),
    {
        Reach { phase: ReachPhase::Ready }
    }

    /// One step on the way to a connection.
    pub fn step(&mut self, event: ReachEvent) -> (step: ReachStep)
        ensures
            (final(self).phase, step) == old(self).next(event),
    {
        let (phase, step) = match (self.phase, event) {
            (ReachPhase::Ready, ReachEvent::Begin) => (ReachPhase::Trying, ReachStep::TryConnect),
            (ReachPhase::Trying, ReachEvent::Answered(yes)) => if yes {
                (ReachPhase::Checking, ReachStep::CheckProtocol)
            } else {
                (ReachPhase::Spawning, ReachStep::SpawnHub)
            },
            (ReachPhase::Checking, ReachEvent::Compatible(yes)) => if yes {
                (ReachPhase::Over, ReachStep::UseFresh)
            } else {
                (ReachPhase::Stopping, ReachStep::StopOldHub)
            },
            (ReachPhase::Stopping, ReachEvent::ToldToStop) => (
                ReachPhase::Removing,
                ReachStep::AwaitRemoval,
            ),
            (ReachPhase::Removing, ReachEvent::SocketGone(yes)) => if yes {
                (ReachPhase::Spawning, ReachStep::SpawnHub)
            } else {
                (ReachPhase::Over, ReachStep::Fail)
            },
            (ReachPhase::Spawning, ReachEvent::Spawned(yes)) => if yes {
                (ReachPhase::Binding, ReachStep::AwaitBind)
            } else {
                (ReachPhase::Over, ReachStep::Fail)
            },
            (ReachPhase::Binding, ReachEvent::Bound(yes)) => if yes {
                (ReachPhase::Over, ReachStep::UseBound)
            } else {
                (ReachPhase::Over, ReachStep::Fail)
            },
            _ => (self.phase, ReachStep::Nothing),
        };
        self.phase = phase;
        step
    }
}

/// A hub is started only where none answered, or after the old one's socket has gone.
pub proof fn hub_is_spawned_only_when_none_runs(reach: Reach, event: ReachEvent)
    ensures
        reach.next(event).1 == ReachStep::SpawnHub ==> event == ReachEvent::Answered(false) || event
            == ReachEvent::SocketGone(true),
{
}

// ── Answers ────────────────────────────────────────────────────────

/// Why a hub that answered a ping with this version is of no use.
pub open spec fn mismatch_text(hub: int, own: int) -> Seq<char> {
    "hub protocol mismatch: hub="@ + text::decimal(hub as nat) + ", cli="@ + text::decimal(own as nat)
}

/// Whether the running hub speaks the same protocol version. `reply` is its answer to a ping,
/// if there was one.
pub fn check_hub_protocol(reply: Option<HubMessage>, own: u32) -> (verdict: Result<(), String>)
    ensures
        match reply {
            Some(HubMessage::Pong { protocol_version }) => if protocol_version == own {
                verdict is Ok
            } else {
                verdict matches Err(e) && e@ == mismatch_text(protocol_version as int, own as int)
            },
            _ => verdict matches Err(e) && e@ == "hub did not respond to ping (likely outdated)"@,
        },
{
    match reply {
        Some(HubMessage::Pong { protocol_version }) => if protocol_version == own {
            Ok(())
        } else {
            let mut s = copy_of("hub protocol mismatch: hub=");
            push_decimal(&mut s, protocol_version as usize);
            s.push_str(", cli=");
            push_decimal(&mut s, own as usize);
            Err(s)
        },
        _ => Err(copy_of("hub did not respond to ping (likely outdated)")),
    }
}

/// What is to be said about the hub's answer to a stop.
pub fn stop_complaint(reply: HubMessage) -> (complaint: Option<String>)
    ensures
        match reply {
            HubMessage::Error { message } => complaint matches Some(s) && s@
                == "error stopping hub: "@ + message@,
            _ => complaint is None,
        },
{
    match reply {
        HubMessage::Error { message } => Some(joined("error stopping hub: ", message.as_str())),
        _ => None,
    }
}

/// What the hub's answer to stopping an agent means.
pub fn stop_agent_reply(reply: HubMessage) -> (result: Result<(), String>)
    ensures
        result == (match reply {
            HubMessage::Error { message } => Err(message),
            _ => Ok(()),
        }),
{
    match reply {
        HubMessage::Error { message } => Err(message),
        _ => Ok(()),
    }
}

/// The agents that the hub lists.
pub fn agent_list_reply(reply: HubMessage) -> (result: Result<Vec<AgentInfo>, String>)
    ensures
        match reply {
            HubMessage::AgentList { agents } => result == Ok::<Vec<AgentInfo>, String>(agents),
            _ => result matches Err(e) && e@ == "unexpected response from hub while listing agents"@,
        },
{
    match reply {
        HubMessage::AgentList { agents } => Ok(agents),
        _ => Err(copy_of("unexpected response from hub while listing agents")),
    }
}

/// The names of the hubs that agents run in.
pub open spec fn hub_names(agents: Seq<AgentInfo>) -> Seq<Seq<char>> {
    agents.map_values(|a: AgentInfo| a.hub@)
}

/// How many different names there are.
pub open spec fn distinct(names: Seq<Seq<char>>) -> int
    decreases names.len(),
{
    if names.len() == 0 {
        0
    } else {
        distinct(names.drop_last()) + if names.drop_last().contains(names.last()) {
            0int
        } else {
            1
        }
    }
}

/// How many hubs agents run in: one at least.
pub open spec fn hubs_of(agents: Seq<AgentInfo>) -> int {
    if distinct(hub_names(agents)) > 1 {
        distinct(hub_names(agents))
    } else {
        1
    }
}

/// How many hubs agents run in: one at least.
pub fn count_hubs(agents: &Vec<AgentInfo>) -> (n: usize)
    ensures
        n == hubs_of(agents@),
{
    let ghost names = hub_names(agents@);
    let mut n: usize = 0;
    let mut i: usize = 0;
    assert(names.take(0) =~= Seq::<Seq<char>>::empty());
    while i < agents.len()
        invariant
            i <= agents@.len(),
            names == hub_names(agents@),
            n == distinct(names.take(i as int)),
            n <= i,
        decreases agents@.len() - i,
    {
        let mut seen = false;
        let mut k: usize = 0;
        while k < i && !seen
            invariant
                k <= i < agents@.len(),
                names == hub_names(agents@),
                seen ==> names.take(i as int).contains(names[i as int]),
                !seen ==> forall|j: int| 0 <= j < k ==> names[j] != names[i as int],
            decreases
                    i - k,
                    if seen {
                        0int
                    } else {
                        1
                    },
        {
            if text_eq(agents[k].hub.as_str(), agents[i].hub.as_str()) {
                assert(names.take(i as int)[k as int] == names[i as int]);
                seen = true;
            } else {
                k += 1;
            }
        }
        proof {
            let next = names.take(i + 1);
            assert(next.drop_last() =~= names.take(i as int));
            assert(next.last() == names[i as int]);
            if !seen {
                assert forall|j: int| 0 <= j < names.take(i as int).len() implies names.take(
                    i as int,
                )[j] != names[i as int] by {}
            }
        }
        if !seen {
            n += 1;
        }
        i += 1;
    }
    assert(names.take(i as int) =~= names);
    if n > 1 {
        n
    } else {
        1
    }
}

/// The number of different names is that of their set.
pub proof fn distinct_counts_the_set(names: Seq<Seq<char>>)
    ensures
        distinct(names) == names.to_set().len(),
        names.to_set().finite(),
    decreases names.len(),
{
    broadcast use vstd::seq_lib::group_seq_properties;

    if names.len() == 0 {
        assert(names.to_set() =~= Set::<Seq<char>>::empty());
    } else {
        let front = names.drop_last();
        distinct_counts_the_set(front);
        assert(names =~= front.push(names.last()));
        assert(names.to_set() =~= front.to_set().insert(names.last())) by {
            assert forall|x: Seq<char>| names.to_set().contains(x) implies front.to_set().insert(
                names.last(),
            ).contains(x) by {
                let i = choose|i: int| 0 <= i < names.len() && names[i] == x;
                if i < front.len() {
                    assert(front[i] == x);
                    assert(front.contains(x));
                }
            }
            assert forall|x: Seq<char>|
                front.to_set().insert(names.last()).contains(x) implies names.to_set().contains(
                x,
            ) by {
                if x == names.last() {
                    assert(names[names.len() - 1] == x);
                } else {
                    assert(front.contains(x));
                    let i = choose|i: int| 0 <= i < front.len() && front[i] == x;
                    assert(names[i] == x);
                }
                assert(names.contains(x));
            }
        }
    }
}

/// What is said when the hub has stopped.
pub fn stopped_label(hub_count: usize) -> (s: &'static str)
    ensures
        s@ == (if hub_count > 1 {
            "clust hubs stopped"@
        } else {
            "clust hub stopped"@
        }),
{
    if hub_count > 1 {
        "clust hubs stopped"
    } else {
        "clust hub stopped"
    }
}

// ── Which agents are stopped ───────────────────────────────────────

fn copy_agent(a: &AgentInfo) -> (b: AgentInfo)
    ensures
        b == *a,
{
    AgentInfo {
        id: a.id.clone(),
        agent_binary: a.agent_binary.clone(),
        started_at: a.started_at.clone(),
        attached_clients: a.attached_clients,
        hub: a.hub.clone(),
        working_dir: a.working_dir.clone(),
        repo_path: copy_text(&a.repo_path),
        branch_name: copy_text(&a.branch_name),
        is_worktree: a.is_worktree,
        batch_title: copy_text(&a.batch_title),
    }
}

fn copy_text(s: &Option<String>) -> (t: Option<String>)
    ensures
        t == *s,
{
    match s {
        Some(x) => Some(x.clone()),
        None => None,
    }
}

/// A copy of a list of agents.
pub fn copy_agents(agents: &Vec<AgentInfo>) -> (copy: Vec<AgentInfo>)
    ensures
        copy@ == agents@,
{
    let mut copy: Vec<AgentInfo> = Vec::new();
    let mut i: usize = 0;
    while i < agents.len()
        invariant
            i <= agents@.len(),
            copy@ == agents@.take(i as int),
        decreases agents@.len() - i,
    {
        copy.push(copy_agent(&agents[i]));
        i += 1;
        assert(agents@.take(i as int) =~= agents@.take(i - 1).push(agents@[i - 1]));
    }
    assert(agents@.take(i as int) =~= agents@);
    copy
}

/// The agents with this id.
pub open spec fn with_id(agents: Seq<AgentInfo>, id: Seq<char>) -> Seq<AgentInfo> {
    agents.filter(|a: AgentInfo| a.id@ == id)
}

/// The agents with this id.
pub fn agents_with_id(agents: &Vec<AgentInfo>, id: &str) -> (chosen: Vec<AgentInfo>)
    ensures
        chosen@ == with_id(agents@, id@),
{
    let ghost wanted = |a: AgentInfo| a.id@ == id@;
    let mut chosen: Vec<AgentInfo> = Vec::new();
    let mut i: usize = 0;
    proof {
        reveal(Seq::filter);
        assert(agents@.take(0) =~= Seq::<AgentInfo>::empty());
    }
    while i < agents.len()
        invariant
            i <= agents@.len(),
            wanted == (|a: AgentInfo| a.id@ == id@),
            chosen@ == agents@.take(i as int).filter(wanted),
        decreases agents@.len() - i,
    {
        proof {
            reveal(Seq::filter);
            assert(agents@.take(i + 1).drop_last() =~= agents@.take(i as int));
        }
        if text_eq(agents[i].id.as_str(), id) {
            chosen.push(copy_agent(&agents[i]));
        }
        i += 1;
    }
    assert(agents@.take(i as int) =~= agents@);
    chosen
}

/// The repository that a directory lies in: that of the first agent whose repository's path the
/// directory's begins with.
pub open spec fn repo_root_of(agents: Seq<AgentInfo>, dir: Seq<char>) -> Option<Seq<char>>
    decreases agents.len(),
{
    if agents.len() == 0 {
        None
    } else {
        match overview::opt_view(agents[0].repo_path) {
            Some(path) => if path.is_prefix_of(dir) {
                Some(path)
            } else {
                repo_root_of(agents.skip(1), dir)
            },
            None => repo_root_of(agents.skip(1), dir),
        }
    }
}

/// The agents that work in the repository that a directory lies in.
pub open spec fn in_repo_of(agents: Seq<AgentInfo>, dir: Seq<char>) -> Seq<AgentInfo> {
    match repo_root_of(agents, dir) {
        Some(root) => agents.filter(|a: AgentInfo| overview::opt_view(a.repo_path) == Some(root)),
        None => Seq::empty(),
    }
}

fn find_root(agents: &Vec<AgentInfo>, dir: &str) -> (root: Option<String>)
    ensures
        overview::opt_view(root) == repo_root_of(agents@, dir@),
{
    let chars = chars_of(dir);
    let mut i: usize = 0;
    assert(agents@.skip(0) =~= agents@);
    while i < agents.len()
        invariant
            i <= agents@.len(),
            chars@ == dir@,
            repo_root_of(agents@, dir@) == repo_root_of(agents@.skip(i as int), dir@),
        decreases agents@.len() - i,
    {
        assert(agents@.skip(i as int).skip(1) =~= agents@.skip(i + 1));
        if let Some(path) = &agents[i].repo_path {
            if starts_with(chars.as_slice(), path.as_str()) {
                return Some(path.clone());
            }
        }
        i += 1;
    }
    None
}

/// The agents that work in the repository that a directory lies in.
pub fn agents_in_repo_of(agents: &Vec<AgentInfo>, dir: &str) -> (chosen: Vec<AgentInfo>)
    ensures
        chosen@ == in_repo_of(agents@, dir@),
{
    let root = match find_root(agents, dir) {
        Some(root) => root,
        None => return Vec::new(),
    };
    let ghost wanted = |a: AgentInfo| overview::opt_view(a.repo_path) == Some(root@);
    let mut chosen: Vec<AgentInfo> = Vec::new();
    let mut i: usize = 0;
    proof {
        reveal(Seq::filter);
        assert(agents@.take(0) =~= Seq::<AgentInfo>::empty());
    }
    while i < agents.len()
        invariant
            i <= agents@.len(),
            wanted == (|a: AgentInfo| overview::opt_view(a.repo_path) == Some(root@)),
            chosen@ == agents@.take(i as int).filter(wanted),
        decreases agents@.len() - i,
    {
        proof {
            reveal(Seq::filter);
            assert(agents@.take(i + 1).drop_last() =~= agents@.take(i as int));
        }
        let inside = match &agents[i].repo_path {
            Some(path) => text_eq(path.as_str(), root.as_str()),
            None => false,
        };
        if inside {
            chosen.push(copy_agent(&agents[i]));
        }
        i += 1;
    }
    assert(agents@.take(i as int) =~= agents@);
    chosen
}

// ── Programs beside this one ───────────────────────────────────────

/// The path of a program in a directory.
pub fn program_in(dir: &str, name: &str) -> (path: String)
    ensures
        path@ == modal::as_directory(dir@) + name@,
{
    let mut path = directory_path(dir);
    path.push_str(name);
    path
}

/// What is said where that program is missing.
pub fn missing_program(name: &str, path: &str) -> (message: String)
    ensures
        message@ == name@ + " binary not found at "@ + path@,
{
    let mut message = copy_of(name);
    message.push_str(" binary not found at ");
    message.push_str(path);
    message
}

/// A hub that answers is used if it speaks the same protocol, and replaced if it does not; a hub
/// that does not answer is started; what cannot be done ends in failure.
pub proof fn hubs_are_used_replaced_or_started(reach: Reach, yes: bool)
    ensures
        reach.phase is Trying ==> (if yes {
            reach.next(ReachEvent::Answered(yes)).1 is CheckProtocol
        } else {
            reach.next(ReachEvent::Answered(yes)).1 is SpawnHub
        }),
        reach.phase is Checking ==> (if yes {
            reach.next(ReachEvent::Compatible(yes)).1 is UseFresh
        } else {
            reach.next(ReachEvent::Compatible(yes)).1 is StopOldHub
        }),
        reach.phase is Stopping ==> reach.next(ReachEvent::ToldToStop).1 is AwaitRemoval,
        reach.phase is Removing ==> (if yes {
            reach.next(ReachEvent::SocketGone(yes)).1 is SpawnHub
        } else {
            reach.next(ReachEvent::SocketGone(yes)).1 is Fail
        }),
        reach.phase is Spawning ==> (if yes {
            reach.next(ReachEvent::Spawned(yes)).1 is AwaitBind
        } else {
            reach.next(ReachEvent::Spawned(yes)).1 is Fail
        }),
        reach.phase is Binding ==> (if yes {
            reach.next(ReachEvent::Bound(yes)).1 is UseBound
        } else {
            reach.next(ReachEvent::Bound(yes)).1 is Fail
        }),
{
}

/// Waiting ends at once when what is waited for is there, goes on while there is time, and is given
/// up after that.
pub proof fn waits_end_when_they_should(wait: Wait)
    requires
        wait.wf(),
    ensures
        wait.next(true).1 is Ready,
        wait.elapsed < wait.limit ==> wait.next(false).1 is Sleep && wait.next(false).0.elapsed
            > wait.elapsed && wait.next(false).0.limit == wait.limit,
        wait.elapsed >= wait.limit ==> wait.next(false).1 is TimedOut,
{
}

/// The agents of the repository that a directory lies in are those of one repository, and it holds
/// the directory.
pub proof fn agents_of_the_repository_here(agents: Seq<AgentInfo>, dir: Seq<char>, i: int)
    requires
        0 <= i < in_repo_of(agents, dir).len(),
    ensures
        ({
            let found = in_repo_of(agents, dir);
            &&& agents.contains(found[i])
            &&& found[i].repo_path is Some
            &&& found[i].repo_path->0@.is_prefix_of(dir)
            &&& found[i].repo_path->0@ == found[0].repo_path->0@
        }),
{
    lemma_repo_root(agents, dir);
    let root = repo_root_of(agents, dir)->0;
    let keep = |a: AgentInfo| overview::opt_view(a.repo_path) == Some(root);
    let found = in_repo_of(agents, dir);
    agents.filter_lemma(keep);
    assert(found == agents.filter(keep));
    assert(keep(found[i]) && keep(found[0]));
    lemma_filtered_is_kept(agents, keep, i);
}

pub proof fn lemma_filtered_is_kept(
    agents: Seq<AgentInfo>,
    keep: spec_fn(AgentInfo) -> bool,
    i: int,
)
    requires
        0 <= i < agents.filter(keep).len(),
    ensures
        agents.contains(agents.filter(keep)[i]),
    decreases agents.len(),
{
    reveal(Seq::filter);
    if agents.len() > 0 {
        let front = agents.drop_last();
        let rest = front.filter(keep);
        if i < rest.len() {
            lemma_filtered_is_kept(front, keep, i);
            let k = choose|k: int| 0 <= k < front.len() && front[k] == rest[i];
            assert(agents[k] == agents.filter(keep)[i]);
        } else {
            assert(agents[agents.len() - 1] == agents.filter(keep)[i]);
        }
    }
}

proof fn lemma_repo_root(agents: Seq<AgentInfo>, dir: Seq<char>)
    ensures
        repo_root_of(agents, dir) matches Some(root) ==> root.is_prefix_of(dir),
    decreases agents.len(),
{
    if agents.len() > 0 {
        lemma_repo_root(agents.skip(1), dir);
    }
}

/// The hub's number stands before the program's own.
pub proof fn mismatches_tell_both_numbers(hub: int, own: int)
    requires
        hub >= 0,
        own >= 0,
    ensures
        ({
            let s = mismatch_text(hub, own);
            let a = text::decimal(hub as nat);
            let b = text::decimal(own as nat);
            &&& s.len() == 27 + a.len() + 6 + b.len()
            &&& s.subrange(27, 27 + a.len() as int) == a
            &&& s.skip(s.len() - b.len()) == b
        }),
{
    reveal_strlit("hub protocol mismatch: hub=");
    reveal_strlit(", cli=");
    let s = mismatch_text(hub, own);
    let a = text::decimal(hub as nat);
    let b = text::decimal(own as nat);
    assert(s.subrange(27, 27 + a.len() as int) =~= a);
    assert(s.skip(s.len() - b.len()) =~= b);
}

/// The repository one stands in is that of the first agent whose repository lies on the way.
pub proof fn repositories_lie_on_the_way(agents: Seq<AgentInfo>, dir: Seq<char>, i: int)
    requires
        0 <= i <= agents.len(),
        forall|j: int|
            0 <= j < i ==> ((#[trigger] agents[j]).repo_path is None
                || !agents[j].repo_path->0@.is_prefix_of(dir)),
    ensures
        i == agents.len() ==> repo_root_of(agents, dir) is None,
        i < agents.len() && agents[i].repo_path is Some && agents[i].repo_path->0@.is_prefix_of(dir)
            ==> repo_root_of(agents, dir) == Some(agents[i].repo_path->0@),
    decreases agents.len(),
{
    if i > 0 {
        let rest = agents.skip(1);
        assert(agents[0].repo_path is None || !agents[0].repo_path->0@.is_prefix_of(dir));
        assert forall|j: int| 0 <= j < i - 1 implies ((#[trigger] rest[j]).repo_path is None
            || !rest[j].repo_path->0@.is_prefix_of(dir)) by {
            assert(rest[j] == agents[j + 1]);
        }
        repositories_lie_on_the_way(rest, dir, i - 1);
    }
}

/// A hub that does not come up is told of with the place of its log.
pub proof fn late_hubs_are_told_of_with_their_log(log: Seq<char>)
    ensures
        ({
            let s = bind_timeout_text(log);
            &&& s.len() >= log.len() + 11
            &&& s.subrange(s.len() - 11 - log.len(), s.len() - 11) == log
        }),
{
    reveal_strlit(" for errors");
    let s = bind_timeout_text(log);
    assert(s.subrange(s.len() - 11 - log.len(), s.len() - 11) =~= log);
}

/// Hubs are counted once each, and there is at least one.
pub proof fn hubs_are_counted_once(names: Seq<Seq<char>>, name: Seq<char>)
    ensures
        names.contains(name) ==> distinct(names.push(name)) == distinct(names),
        !names.contains(name) ==> distinct(names.push(name)) == distinct(names) + 1,
        distinct(Seq::empty()) == 0,
{
    assert(names.push(name).drop_last() =~= names);
}

} // verus!
