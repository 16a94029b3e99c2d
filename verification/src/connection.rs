//! The life of a connection to one agent or to one terminal.
//!
//! A connection is a state machine: the caller performs the actions that a step asks for and
//! hands back what happened.

use vstd::prelude::*;

use crate::protocol::{CliMessage, HubMessage};
use crate::text::joined;

verus! {

/// Commands sent from the UI to a connection.
#[derive(Debug, Clone)]
pub enum PanelCommand {
    Input(Vec<u8>),
    Resize { cols: u16, rows: u16 },
    Detach,
}

/// Events that an agent's connection reports to the UI.
#[derive(Debug, Clone)]
pub enum AgentOutputEvent {
    Output { id: String, data: Vec<u8> },
    Exited { id: String, exit_code: i32 },
    ConnectionLost { id: String },
}

/// Events that a terminal's connection reports to the UI.
#[derive(Debug, Clone)]
pub enum TerminalOutputEvent {
    /// Sent once, immediately after the hub acknowledges the start. Lets the owning panel
    /// learn its id before any output arrives.
    Started { id: String },
    Output { id: String, data: Vec<u8> },
    Exited { id: String },
    ConnectionLost { id: String },
    /// The connection could not start (e.g., hub rejected the request or the socket was
    /// unreachable). Surfaced to the UI as a transient status line.
    SpawnFailed { message: String },
}

/// What happened to a connection.
pub enum ConnectionEvent {
    /// The hub's socket accepted the connection.
    Connected,
    /// The hub's socket could not be reached, for this reason.
    Unreachable(String),
    /// The last message could not be sent, for this reason.
    SendFailed(String),
    /// The hub said something; `shown` is that message in readable form.
    Hub { message: HubMessage, shown: String },
    /// Reading from the hub failed, for this reason.
    ReadFailed(String),
    /// The UI gave a command; `None` where it closed its end.
    Command(Option<PanelCommand>),
    /// An event could not be delivered because the UI is gone.
    UiGone,
}

// ── Agents ─────────────────────────────────────────────────────────

#[derive(Debug, Clone, Copy, PartialEq, Eq, Structural)]
pub enum AgentPhase {
    /// Waiting for the socket.
    Connecting,
    /// Asked to attach, waiting for the hub's answer.
    Attaching,
    /// Receiving the output that the hub has kept.
    Replaying,
    /// Attached.
    Live,
    /// Over.
    Closed,
}

/// What to do next for an agent's connection.
#[derive(Debug, Clone)]
pub enum AgentAction {
    Send(CliMessage),
    Emit(AgentOutputEvent),
}

/// A connection to one agent.
pub struct AgentConnection {
    pub agent_id: String,
    pub cols: u16,
    pub rows: u16,
    pub phase: AgentPhase,
}

pub open spec fn agent_lost(id: String) -> (AgentPhase, Seq<AgentAction>) {
    (AgentPhase::Closed, seq![AgentAction::Emit(AgentOutputEvent::ConnectionLost { id })])
}

pub open spec fn agent_output(id: String, data: Vec<u8>) -> AgentAction {
    AgentAction::Emit(AgentOutputEvent::Output { id, data })
}

pub open spec fn agent_exit(id: String, exit_code: i32) -> (AgentPhase, Seq<AgentAction>) {
    (AgentPhase::Closed, seq![AgentAction::Emit(AgentOutputEvent::Exited { id, exit_code })])
}

impl AgentConnection {
    /// The next phase and what to do, for each event in each phase.
    pub open spec fn next(self, event: ConnectionEvent) -> (AgentPhase, Seq<AgentAction>) {
        let id = self.agent_id;
        let stay = (self.phase, Seq::<AgentAction>::empty());
        match self.phase {
            AgentPhase::Connecting => match event {
                ConnectionEvent::Connected => (
                    AgentPhase::Attaching,
                    seq![AgentAction::Send(CliMessage::AttachAgent { id })],
                ),
                ConnectionEvent::Unreachable(_) => agent_lost(id),
                _ => stay,
            },
            AgentPhase::Attaching => match event {
                ConnectionEvent::Hub { message, .. } => if message is AgentAttached {
                    (AgentPhase::Replaying, Seq::empty())
                } else {
                    agent_lost(id)
                },
                ConnectionEvent::SendFailed(_) | ConnectionEvent::ReadFailed(_) => agent_lost(id),
                _ => stay,
            },
            AgentPhase::Replaying => match event {
                ConnectionEvent::Hub { message, .. } => match message {
                    HubMessage::AgentOutput { data, .. } => (
                        AgentPhase::Replaying,
                        seq![agent_output(id, data)],
                    ),
                    HubMessage::AgentReplayComplete { .. } => (
                        AgentPhase::Live,
                        seq![
                            AgentAction::Send(
                                CliMessage::ResizeAgent { id, cols: self.cols, rows: self.rows },
                            ),
                        ],
                    ),
                    HubMessage::AgentExited { exit_code, .. } => agent_exit(id, exit_code),
                    _ => agent_lost(id),
                },
                ConnectionEvent::ReadFailed(_) => agent_lost(id),
                _ => stay,
            },
            AgentPhase::Live => match event {
                ConnectionEvent::Hub { message, .. } => match message {
                    HubMessage::AgentOutput { data, .. } => (
                        AgentPhase::Live,
                        seq![agent_output(id, data)],
                    ),
                    HubMessage::AgentExited { exit_code, .. } => agent_exit(id, exit_code),
                    HubMessage::HubShutdown => agent_lost(id),
                    _ => stay,
                },
                ConnectionEvent::ReadFailed(_) => agent_lost(id),
                ConnectionEvent::UiGone => (AgentPhase::Closed, Seq::empty()),
                ConnectionEvent::Command(Some(PanelCommand::Input(data))) => (
                    AgentPhase::Live,
                    seq![AgentAction::Send(CliMessage::AgentInput { id, data })],
                ),
                ConnectionEvent::Command(Some(PanelCommand::Resize { cols, rows })) => (
                    AgentPhase::Live,
                    seq![AgentAction::Send(CliMessage::ResizeAgent { id, cols, rows })],
                ),
                ConnectionEvent::Command(Some(PanelCommand::Detach))
                | ConnectionEvent::Command(None) => (
                    AgentPhase::Closed,
                    seq![AgentAction::Send(CliMessage::DetachAgent { id })],
                ),
                _ => stay,
            },
            AgentPhase::Closed => stay,
        }
    }

    pub fn new(agent_id: String, cols: u16, rows: u16) -> (c: Self)
        ensures
            c == (AgentConnection { agent_id, cols, rows, phase: AgentPhase::Connecting }),
    {
        AgentConnection { agent_id, cols, rows, phase: AgentPhase::Connecting }
    }

    fn lost(&mut self) -> (actions: Vec<AgentAction>)
        ensures
            (final(self).phase, actions@) == agent_lost(old(self).agent_id),
            *final(self) == (AgentConnection { phase: AgentPhase::Closed, ..*old(self) }),
    {
        self.phase = AgentPhase::Closed;
        vec![AgentAction::Emit(AgentOutputEvent::ConnectionLost { id: self.agent_id.clone() })]
    }

    fn exited(&mut self, exit_code: i32) -> (actions: Vec<AgentAction>)
        ensures
            (final(self).phase, actions@) == agent_exit(old(self).agent_id, exit_code),
            *final(self) == (AgentConnection { phase: AgentPhase::Closed, ..*old(self) }),
    {
        self.phase = AgentPhase::Closed;
        vec![AgentAction::Emit(AgentOutputEvent::Exited { id: self.agent_id.clone(), exit_code })]
    }

    /// Takes in what happened and returns what to do, in order.
    pub fn step(&mut self, event: ConnectionEvent) -> (actions: Vec<AgentAction>)
        ensures
            (final(self).phase, actions@) == old(self).next(event),
            *final(self) == (AgentConnection { phase: final(self).phase, ..*old(self) }),
    {
        let id = self.agent_id.clone();
        match self.phase {
            AgentPhase::Connecting => match event {
                ConnectionEvent::Connected => {
                    self.phase = AgentPhase::Attaching;
                    vec![AgentAction::Send(CliMessage::AttachAgent { id })]
                },
                ConnectionEvent::Unreachable(_) => self.lost(),
                _ => Vec::new(),
            },
            AgentPhase::Attaching => match event {
                ConnectionEvent::Hub { message, .. } => match message {
                    HubMessage::AgentAttached { .. } => {
                        self.phase = AgentPhase::Replaying;
                        Vec::new()
                    },
                    _ => self.lost(),
                },
                ConnectionEvent::SendFailed(_) => self.lost(),
                ConnectionEvent::ReadFailed(_) => self.lost(),
                _ => Vec::new(),
            },
            // The hub sends buffered output followed by a marker before live streaming begins
            AgentPhase::Replaying => match event {
                ConnectionEvent::Hub { message, .. } => match message {
                    HubMessage::AgentOutput { data, .. } => {
                        vec![AgentAction::Emit(AgentOutputEvent::Output { id, data })]
                    },
                    HubMessage::AgentReplayComplete { .. } => {
                        self.phase = AgentPhase::Live;
                        // The resize triggers a fresh redraw on top of the replayed state
                        vec![
                            AgentAction::Send(
                                CliMessage::ResizeAgent { id, cols: self.cols, rows: self.rows },
                            ),
                        ]
                    },
                    HubMessage::AgentExited { exit_code, .. } => self.exited(exit_code),
                    _ => self.lost(),
                },
                ConnectionEvent::ReadFailed(_) => self.lost(),
                _ => Vec::new(),
            },
            AgentPhase::Live => match event {
                ConnectionEvent::Hub { message, .. } => match message {
                    HubMessage::AgentOutput { data, .. } => {
                        vec![AgentAction::Emit(AgentOutputEvent::Output { id, data })]
                    },
                    HubMessage::AgentExited { exit_code, .. } => self.exited(exit_code),
                    HubMessage::HubShutdown => self.lost(),
                    _ => Vec::new(),
                },
                ConnectionEvent::ReadFailed(_) => self.lost(),
                ConnectionEvent::UiGone => {
                    self.phase = AgentPhase::Closed;
                    Vec::new()
                },
                ConnectionEvent::Command(command) => match command {
                    Some(PanelCommand::Input(data)) => {
                        vec![AgentAction::Send(CliMessage::AgentInput { id, data })]
                    },
                    Some(PanelCommand::Resize { cols, rows }) => {
                        vec![AgentAction::Send(CliMessage::ResizeAgent { id, cols, rows })]
                    },
                    _ => {
                        self.phase = AgentPhase::Closed;
                        vec![AgentAction::Send(CliMessage::DetachAgent { id })]
                    },
                },
                _ => Vec::new(),
            },
            AgentPhase::Closed => Vec::new(),
        }
    }
}

// ── Terminals ──────────────────────────────────────────────────────

#[derive(Debug, Clone)]
pub enum TerminalPhase {
    /// Waiting for the socket.
    Connecting,
    /// Asked for a terminal, waiting for the hub's answer.
    Starting,
    /// Receiving the output that the hub has kept for this terminal.
    Replaying(String),
    /// Started.
    Live(String),
    /// Over.
    Closed,
}

/// What to do next for a terminal's connection.
#[derive(Debug, Clone)]
pub enum TerminalAction {
    Send(CliMessage),
    Emit(TerminalOutputEvent),
}

/// A connection to one terminal.
pub struct TerminalConnection {
    pub working_dir: String,
    pub cols: u16,
    pub rows: u16,
    pub agent_id: Option<String>,
    pub phase: TerminalPhase,
}

/// Whether `actions` is the one event that says that starting failed with `message`.
pub open spec fn says_spawn_failed(actions: Seq<TerminalAction>, message: Seq<char>) -> bool {
    &&& actions.len() == 1
    &&& actions[0] matches TerminalAction::Emit(TerminalOutputEvent::SpawnFailed { message: m })
        && m@ == message
}

pub open spec fn in_brackets(lead: Seq<char>, e: Seq<char>) -> Seq<char> {
    lead + "("@ + e + ")"@
}

pub open spec fn terminal_lost(id: String) -> (TerminalPhase, Seq<TerminalAction>) {
    (TerminalPhase::Closed, seq![TerminalAction::Emit(TerminalOutputEvent::ConnectionLost { id })])
}

pub open spec fn terminal_exit(id: String) -> (TerminalPhase, Seq<TerminalAction>) {
    (TerminalPhase::Closed, seq![TerminalAction::Emit(TerminalOutputEvent::Exited { id })])
}

pub open spec fn terminal_output(id: String, data: Vec<u8>) -> Seq<TerminalAction> {
    seq![TerminalAction::Emit(TerminalOutputEvent::Output { id, data })]
}

impl TerminalConnection {
    /// The failure to report while the terminal is not started yet, where `event` is one.
    pub open spec fn start_failure(self, event: ConnectionEvent) -> Option<Seq<char>> {
        match (self.phase, event) {
            (TerminalPhase::Connecting, ConnectionEvent::Unreachable(e)) => Some(
                in_brackets("hub unreachable "@, e@),
            ),
            (TerminalPhase::Starting, ConnectionEvent::SendFailed(e)) => Some(
                in_brackets("send StartTerminal failed "@, e@),
            ),
            (TerminalPhase::Starting, ConnectionEvent::ReadFailed(e)) => Some(
                in_brackets("hub closed before reply "@, e@),
            ),
            (TerminalPhase::Starting, ConnectionEvent::Hub { message, shown }) => if message
                is TerminalStarted {
                None
            } else {
                Some(in_brackets("hub rejected start "@, "got "@ + shown@))
            },
            _ => None,
        }
    }

    /// The next phase and what to do, for each event that is no failure to start.
    pub open spec fn next(self, event: ConnectionEvent) -> (TerminalPhase, Seq<TerminalAction>) {
        let stay = (self.phase, Seq::<TerminalAction>::empty());
        match self.phase {
            TerminalPhase::Connecting => match event {
                ConnectionEvent::Connected => (
                    TerminalPhase::Starting,
                    seq![
                        TerminalAction::Send(
                            CliMessage::StartTerminal {
                                working_dir: self.working_dir,
                                cols: self.cols,
                                rows: self.rows,
                                agent_id: self.agent_id,
                            },
                        ),
                    ],
                ),
                _ => stay,
            },
            TerminalPhase::Starting => match event {
                ConnectionEvent::Hub { message: HubMessage::TerminalStarted { id }, .. } => (
                    TerminalPhase::Replaying(id),
                    seq![TerminalAction::Emit(TerminalOutputEvent::Started { id })],
                ),
                _ => stay,
            },
            TerminalPhase::Replaying(id) => match event {
                ConnectionEvent::Hub { message, .. } => match message {
                    HubMessage::TerminalOutput { data, .. } => (
                        TerminalPhase::Replaying(id),
                        terminal_output(id, data),
                    ),
                    HubMessage::TerminalReplayComplete { .. } => (
                        TerminalPhase::Live(id),
                        seq![
                            TerminalAction::Send(
                                CliMessage::ResizeTerminal {
                                    id,
                                    cols: self.cols,
                                    rows: self.rows,
                                },
                            ),
                        ],
                    ),
                    HubMessage::TerminalExited { .. } => terminal_exit(id),
                    _ => terminal_lost(id),
                },
                ConnectionEvent::ReadFailed(_) => terminal_lost(id),
                _ => stay,
            },
            TerminalPhase::Live(id) => match event {
                ConnectionEvent::Hub { message, .. } => match message {
                    HubMessage::TerminalOutput { data, .. } => (
                        TerminalPhase::Live(id),
                        terminal_output(id, data),
                    ),
                    HubMessage::TerminalExited { .. } => terminal_exit(id),
                    HubMessage::HubShutdown => terminal_lost(id),
                    _ => stay,
                },
                ConnectionEvent::ReadFailed(_) => terminal_lost(id),
                ConnectionEvent::UiGone => (TerminalPhase::Closed, Seq::empty()),
                ConnectionEvent::Command(Some(PanelCommand::Input(data))) => (
                    TerminalPhase::Live(id),
                    seq![TerminalAction::Send(CliMessage::TerminalInput { id, data })],
                ),
                ConnectionEvent::Command(Some(PanelCommand::Resize { cols, rows })) => (
                    TerminalPhase::Live(id),
                    seq![TerminalAction::Send(CliMessage::ResizeTerminal { id, cols, rows })],
                ),
                ConnectionEvent::Command(Some(PanelCommand::Detach))
                | ConnectionEvent::Command(None) => (
                    TerminalPhase::Closed,
                    seq![TerminalAction::Send(CliMessage::DetachTerminal { id })],
                ),
                _ => stay,
            },
            TerminalPhase::Closed => stay,
        }
    }

    pub fn new(working_dir: String, cols: u16, rows: u16, agent_id: Option<String>) -> (c: Self)
        ensures
            c == (TerminalConnection {
                working_dir,
                cols,
                rows,
                agent_id,
                phase: TerminalPhase::Connecting,
            }),
    {
        TerminalConnection { working_dir, cols, rows, agent_id, phase: TerminalPhase::Connecting }
    }

    fn spawn_failed(&mut self, lead: &str, e: &str) -> (actions: Vec<TerminalAction>)
        ensures
            says_spawn_failed(actions@, in_brackets(lead@, e@)),
            *final(self) == (TerminalConnection { phase: TerminalPhase::Closed, ..*old(self) }),
    {
        self.phase = TerminalPhase::Closed;
        let mut message = joined(lead, "(");
        message.push_str(e);
        message.push_str(")");
        vec![TerminalAction::Emit(TerminalOutputEvent::SpawnFailed { message })]
    }

    fn lost(&mut self, id: String) -> (actions: Vec<TerminalAction>)
        ensures
            (final(self).phase, actions@) == terminal_lost(id),
            *final(self) == (TerminalConnection { phase: TerminalPhase::Closed, ..*old(self) }),
    {
        self.phase = TerminalPhase::Closed;
        vec![TerminalAction::Emit(TerminalOutputEvent::ConnectionLost { id })]
    }

    fn exited(&mut self, id: String) -> (actions: Vec<TerminalAction>)
        ensures
            (final(self).phase, actions@) == terminal_exit(id),
            *final(self) == (TerminalConnection { phase: TerminalPhase::Closed, ..*old(self) }),
    {
        self.phase = TerminalPhase::Closed;
        vec![TerminalAction::Emit(TerminalOutputEvent::Exited { id })]
    }

    fn step_connecting(&mut self, event: ConnectionEvent) -> (actions: Vec<TerminalAction>)
        requires
            old(self).phase is Connecting,
        ensures
            *final(self) == (TerminalConnection { phase: final(self).phase, ..*old(self) }),
            match old(self).start_failure(event) {
                Some(message) => final(self).phase is Closed && says_spawn_failed(
                    actions@,
                    message,
                ),
                None => (final(self).phase, actions@) == old(self).next(event),
            },
    {
        match event {
            ConnectionEvent::Connected => {
                let agent_id = match &self.agent_id {
                    Some(a) => Some(a.clone()),
                    None => None,
                };
                self.phase = TerminalPhase::Starting;
                vec![
                    TerminalAction::Send(
                        CliMessage::StartTerminal {
                            working_dir: self.working_dir.clone(),
                            cols: self.cols,
                            rows: self.rows,
                            agent_id,
                        },
                    ),
                ]
            },
            ConnectionEvent::Unreachable(e) => self.spawn_failed("hub unreachable ", e.as_str()),
            _ => Vec::new(),
        }
    }

    fn step_starting(&mut self, event: ConnectionEvent) -> (actions: Vec<TerminalAction>)
        requires
            old(self).phase is Starting,
        ensures
            *final(self) == (TerminalConnection { phase: final(self).phase, ..*old(self) }),
            match old(self).start_failure(event) {
                Some(message) => final(self).phase is Closed && says_spawn_failed(
                    actions@,
                    message,
                ),
                None => (final(self).phase, actions@) == old(self).next(event),
            },
    {
        match event {
            ConnectionEvent::SendFailed(e) => self.spawn_failed(
                "send StartTerminal failed ",
                e.as_str(),
            ),
            ConnectionEvent::ReadFailed(e) => self.spawn_failed(
                "hub closed before reply ",
                e.as_str(),
            ),
            ConnectionEvent::Hub { message, shown } => match message {
                HubMessage::TerminalStarted { id } => {
                    self.phase = TerminalPhase::Replaying(id.clone());
                    vec![TerminalAction::Emit(TerminalOutputEvent::Started { id })]
                },
                _ => {
                    let got = joined("got ", shown.as_str());
                    self.spawn_failed("hub rejected start ", got.as_str())
                },
            },
            _ => Vec::new(),
        }
    }

    fn step_replaying(&mut self, id: String, event: ConnectionEvent) -> (actions: Vec<
        TerminalAction,
    >)
        requires
            old(self).phase == TerminalPhase::Replaying(id),
        ensures
            *final(self) == (TerminalConnection { phase: final(self).phase, ..*old(self) }),
            (final(self).phase, actions@) == old(self).next(event),
    {
        match event {
            ConnectionEvent::Hub { message, .. } => match message {
                HubMessage::TerminalOutput { data, .. } => {
                    vec![TerminalAction::Emit(TerminalOutputEvent::Output { id, data })]
                },
                HubMessage::TerminalReplayComplete { .. } => {
                    self.phase = TerminalPhase::Live(id.clone());
                    vec![
                        TerminalAction::Send(
                            CliMessage::ResizeTerminal { id, cols: self.cols, rows: self.rows },
                        ),
                    ]
                },
                HubMessage::TerminalExited { .. } => self.exited(id),
                _ => self.lost(id),
            },
            ConnectionEvent::ReadFailed(_) => self.lost(id),
            _ => Vec::new(),
        }
    }

    fn step_live(&mut self, id: String, event: ConnectionEvent) -> (actions: Vec<TerminalAction>)
        requires
            old(self).phase == TerminalPhase::Live(id),
        ensures
            *final(self) == (TerminalConnection { phase: final(self).phase, ..*old(self) }),
            (final(self).phase, actions@) == old(self).next(event),
    {
        match event {
            ConnectionEvent::Hub { message, .. } => match message {
                HubMessage::TerminalOutput { data, .. } => {
                    vec![TerminalAction::Emit(TerminalOutputEvent::Output { id, data })]
                },
                HubMessage::TerminalExited { .. } => self.exited(id),
                HubMessage::HubShutdown => self.lost(id),
                _ => Vec::new(),
            },
            ConnectionEvent::ReadFailed(_) => self.lost(id),
            ConnectionEvent::UiGone => {
                self.phase = TerminalPhase::Closed;
                Vec::new()
            },
            ConnectionEvent::Command(command) => match command {
                Some(PanelCommand::Input(data)) => {
                    vec![TerminalAction::Send(CliMessage::TerminalInput { id, data })]
                },
                Some(PanelCommand::Resize { cols, rows }) => {
                    vec![TerminalAction::Send(CliMessage::ResizeTerminal { id, cols, rows })]
                },
                _ => {
                    self.phase = TerminalPhase::Closed;
                    vec![TerminalAction::Send(CliMessage::DetachTerminal { id })]
                },
            },
            _ => Vec::new(),
        }
    }

    /// Takes in what happened and returns what to do, in order.
    pub fn step(&mut self, event: ConnectionEvent) -> (actions: Vec<TerminalAction>)
        ensures
            *final(self) == (TerminalConnection { phase: final(self).phase, ..*old(self) }),
            match old(self).start_failure(event) {
                Some(message) => final(self).phase is Closed && says_spawn_failed(
                    actions@,
                    message,
                ),
                None => (final(self).phase, actions@) == old(self).next(event),
            },
    {
        let (live, id) = match &self.phase {
            TerminalPhase::Connecting => return self.step_connecting(event),
            TerminalPhase::Starting => return self.step_starting(event),
            TerminalPhase::Replaying(id) => (false, id.clone()),
            TerminalPhase::Live(id) => (true, id.clone()),
            TerminalPhase::Closed => return Vec::new(),
        };
        if live {
            self.step_live(id, event)
        } else {
            self.step_replaying(id, event)
        }
    }
}

// ── Laws ───────────────────────────────────────────────────────────

/// A closed connection stays closed and asks for nothing.
pub proof fn closed_agent_connection_is_silent(c: AgentConnection, event: ConnectionEvent)
    requires
        c.phase is Closed,
    ensures
        c.next(event) == (AgentPhase::Closed, Seq::<AgentAction>::empty()),
{
}

/// A connection never ends in silence: the step that closes it reports the end to the UI or
/// takes leave of the hub, unless the UI is gone; and no step does more than one thing.
pub proof fn agent_connection_says_goodbye(c: AgentConnection, event: ConnectionEvent)
    requires
        !(c.phase is Closed),
        c.next(event).0 is Closed,
        !(event is UiGone),
    ensures
        c.next(event).1.len() == 1,
        c.next(event).1[0] == AgentAction::Send(CliMessage::DetachAgent { id: c.agent_id })
            || c.next(event).1[0] == AgentAction::Emit(
            AgentOutputEvent::ConnectionLost { id: c.agent_id },
        ) || (c.next(event).1[0] matches AgentAction::Emit(
            AgentOutputEvent::Exited { id, .. },
        ) && id == c.agent_id),
{
}

/// Whatever the hub and the UI do, output is passed on unchanged and under the connection's
/// own id, and only once the hub has confirmed the attachment.
pub proof fn agent_output_is_passed_on(c: AgentConnection, event: ConnectionEvent, i: int)
    requires
        0 <= i < c.next(event).1.len(),
        c.next(event).1[i] matches AgentAction::Emit(AgentOutputEvent::Output { .. }),
    ensures
        c.phase is Replaying || c.phase is Live,
        event matches ConnectionEvent::Hub {
            message: HubMessage::AgentOutput { data, .. },
            ..
        } && c.next(event).1 == seq![agent_output(c.agent_id, data)],
{
}

/// What the user types while the agent is attached reaches the hub unchanged.
pub proof fn agent_input_reaches_the_hub(c: AgentConnection, data: Vec<u8>)
    requires
        c.phase is Live,
    ensures
        c.next(ConnectionEvent::Command(Some(PanelCommand::Input(data)))) == (
            AgentPhase::Live,
            seq![AgentAction::Send(CliMessage::AgentInput { id: c.agent_id, data })],
        ),
{
}

/// A terminal learns its id before anything else: the step that leaves the starting phase
/// without closing reports the id and does nothing else.
pub proof fn terminal_id_comes_first(c: TerminalConnection, event: ConnectionEvent)
    requires
        c.phase is Starting,
        c.start_failure(event) is None,
        !(c.next(event).0 is Starting),
    ensures
        c.next(event).0 matches TerminalPhase::Replaying(id) && c.next(event).1 == seq![
            TerminalAction::Emit(TerminalOutputEvent::Started { id }),
        ],
{
}

/// The id that a terminal was given never changes while it is open.
pub proof fn terminal_id_is_kept(c: TerminalConnection, event: ConnectionEvent, id: String)
    requires
        c.phase == TerminalPhase::Replaying(id) || c.phase == TerminalPhase::Live(id),
    ensures
        c.start_failure(event) is None,
        c.next(event).0 == TerminalPhase::Replaying(id) || c.next(event).0 == TerminalPhase::Live(
            id,
        ) || c.next(event).0 is Closed,
{
}

/// An agent is attached to by its own id, once the socket is there; what the hub has kept of its
/// output is read first, and then the agent is told the size of the panel.
pub proof fn agents_are_attached_replayed_and_sized(
    c: AgentConnection,
    message: HubMessage,
    shown: String,
)
    ensures
        c.phase is Connecting ==> c.next(ConnectionEvent::Connected) == (
            AgentPhase::Attaching,
            seq![AgentAction::Send(CliMessage::AttachAgent { id: c.agent_id })],
        ),
        c.phase is Attaching && message is AgentAttached ==> c.next(
            ConnectionEvent::Hub { message, shown },
        ) == (AgentPhase::Replaying, Seq::<AgentAction>::empty()),
        c.phase is Replaying && message is AgentReplayComplete ==> c.next(
            ConnectionEvent::Hub { message, shown },
        ) == (
            AgentPhase::Live,
            seq![
                AgentAction::Send(
                    CliMessage::ResizeAgent { id: c.agent_id, cols: c.cols, rows: c.rows },
                ),
            ],
        ),
{
}

/// All output that the hub sends is shown, what it has kept and what is new, and the end of the
/// agent is told with its code.
pub proof fn no_agent_output_is_lost(
    c: AgentConnection,
    id: String,
    data: Vec<u8>,
    code: i32,
    shown: String,
)
    requires
        c.phase is Replaying || c.phase is Live,
    ensures
        ({
            let message = HubMessage::AgentOutput { id, data };
            let (phase, acts) = c.next(ConnectionEvent::Hub { message, shown });
            &&& phase == c.phase
            &&& acts == seq![AgentAction::Emit(AgentOutputEvent::Output { id: c.agent_id, data })]
        }),
        ({
            let message = HubMessage::AgentExited { id, exit_code: code };
            let (phase, acts) = c.next(ConnectionEvent::Hub { message, shown });
            &&& phase is Closed
            &&& acts == seq![
                AgentAction::Emit(AgentOutputEvent::Exited { id: c.agent_id, exit_code: code }),
            ]
        }),
{
}

/// A panel of another size tells the agent so, a panel that is closed takes its leave, and a hub
/// that goes away is a lost connection.
pub proof fn agents_follow_their_panel(
    c: AgentConnection,
    cols: u16,
    rows: u16,
    e: String,
    shown: String,
)
    requires
        c.phase is Live,
    ensures
        c.next(ConnectionEvent::Command(Some(PanelCommand::Resize { cols, rows }))) == (
            AgentPhase::Live,
            seq![AgentAction::Send(CliMessage::ResizeAgent { id: c.agent_id, cols, rows })],
        ),
        c.next(ConnectionEvent::Command(Some(PanelCommand::Detach))) == (
            AgentPhase::Closed,
            seq![AgentAction::Send(CliMessage::DetachAgent { id: c.agent_id })],
        ),
        c.next(ConnectionEvent::Command(None)) == c.next(
            ConnectionEvent::Command(Some(PanelCommand::Detach)),
        ),
        c.next(ConnectionEvent::ReadFailed(e)) == (
            AgentPhase::Closed,
            seq![AgentAction::Emit(AgentOutputEvent::ConnectionLost { id: c.agent_id })],
        ),
        c.next(ConnectionEvent::Hub { message: HubMessage::HubShutdown, shown }) == c.next(
            ConnectionEvent::ReadFailed(e),
        ),
{
}

/// A terminal is started in its directory, of its size and for its agent; once the hub has given
/// back what it has kept, the terminal is told its size.
pub proof fn terminals_are_started_replayed_and_sized(
    c: TerminalConnection,
    id: String,
    other: String,
    shown: String,
)
    ensures
        c.phase is Connecting ==> c.start_failure(ConnectionEvent::Connected) is None && c.next(
            ConnectionEvent::Connected,
        ) == (
            TerminalPhase::Starting,
            seq![
                TerminalAction::Send(
                    CliMessage::StartTerminal {
                        working_dir: c.working_dir,
                        cols: c.cols,
                        rows: c.rows,
                        agent_id: c.agent_id,
                    },
                ),
            ],
        ),
        ({
            let message = HubMessage::TerminalStarted { id };
            let event = ConnectionEvent::Hub { message, shown };
            c.phase is Starting ==> c.start_failure(event) is None && c.next(event).0
                == TerminalPhase::Replaying(id)
        }),
        ({
            let message = HubMessage::TerminalReplayComplete { id: other };
            c.phase == TerminalPhase::Replaying(id) ==> c.next(
                ConnectionEvent::Hub { message, shown },
            ) == (
                TerminalPhase::Live(id),
                seq![
                    TerminalAction::Send(
                        CliMessage::ResizeTerminal { id, cols: c.cols, rows: c.rows },
                    ),
                ],
            )
        }),
{
}

/// All output of a terminal is shown, and what the user types reaches it unchanged, under the id
/// that the hub gave.
pub proof fn terminals_pass_everything_on(
    c: TerminalConnection,
    id: String,
    other: String,
    data: Vec<u8>,
    shown: String,
)
    requires
        c.phase == TerminalPhase::Replaying(id) || c.phase == TerminalPhase::Live(id),
    ensures
        ({
            let message = HubMessage::TerminalOutput { id: other, data };
            let (phase, acts) = c.next(ConnectionEvent::Hub { message, shown });
            &&& phase == c.phase
            &&& acts == seq![TerminalAction::Emit(TerminalOutputEvent::Output { id, data })]
        }),
        c.phase is Live ==> c.next(ConnectionEvent::Command(Some(PanelCommand::Input(data)))) == (
            c.phase,
            seq![TerminalAction::Send(CliMessage::TerminalInput { id, data })],
        ),
{
}

/// A panel of another size tells the shell so, a panel that is closed takes its leave, a shell that
/// ends is told of, and a hub that goes away is a lost connection.
pub proof fn terminals_follow_their_panel(
    c: TerminalConnection,
    id: String,
    other: String,
    cols: u16,
    rows: u16,
    code: i32,
    e: String,
    shown: String,
)
    requires
        c.phase == TerminalPhase::Live(id),
    ensures
        c.next(ConnectionEvent::Command(Some(PanelCommand::Resize { cols, rows }))) == (
            c.phase,
            seq![TerminalAction::Send(CliMessage::ResizeTerminal { id, cols, rows })],
        ),
        c.next(ConnectionEvent::Command(Some(PanelCommand::Detach))) == (
            TerminalPhase::Closed,
            seq![TerminalAction::Send(CliMessage::DetachTerminal { id })],
        ),
        c.next(ConnectionEvent::Command(None)) == c.next(
            ConnectionEvent::Command(Some(PanelCommand::Detach)),
        ),
        ({
            let message = HubMessage::TerminalExited { id: other, exit_code: code };
            c.next(ConnectionEvent::Hub { message, shown }) == (
                TerminalPhase::Closed,
                seq![TerminalAction::Emit(TerminalOutputEvent::Exited { id })],
            )
        }),
        c.next(ConnectionEvent::ReadFailed(e)) == (
            TerminalPhase::Closed,
            seq![TerminalAction::Emit(TerminalOutputEvent::ConnectionLost { id })],
        ),
        c.next(ConnectionEvent::Hub { message: HubMessage::HubShutdown, shown }) == c.next(
            ConnectionEvent::ReadFailed(e),
        ),
{
}

/// Why a shell could not be started is told with the reason in brackets: no hub to reach, a
/// request that could not be sent, a hub that went away, or another answer than was asked for.
pub proof fn failed_starts_are_told_with_their_reason(
    c: TerminalConnection,
    e: String,
    message: HubMessage,
    shown: String,
)
    ensures
        c.phase is Connecting ==> c.start_failure(ConnectionEvent::Unreachable(e)) == Some(
            "hub unreachable "@ + seq!['('] + e@ + seq![')'],
        ),
        c.phase is Starting ==> c.start_failure(ConnectionEvent::SendFailed(e)) == Some(
            "send StartTerminal failed "@ + seq!['('] + e@ + seq![')'],
        ),
        c.phase is Starting ==> c.start_failure(ConnectionEvent::ReadFailed(e)) == Some(
            "hub closed before reply "@ + seq!['('] + e@ + seq![')'],
        ),
        ({
            let told = c.start_failure((ConnectionEvent::Hub { message, shown }));
            &&& c.phase is Starting && !(message is TerminalStarted) ==> told is Some
                && told->0.subrange(
                told->0.len() - 5 - shown@.len(),
                told->0.len() - 1,
            ) == seq!['g', 'o', 't', ' '] + shown@
            &&& c.phase is Starting && message is TerminalStarted ==> told is None
        }),
        c.phase is Live ==> c.start_failure(ConnectionEvent::ReadFailed(e)) is None,
{
    reveal_strlit("(");
    reveal_strlit(")");
    reveal_strlit("got ");
    assert("("@ =~= seq!['(']);
    assert(")"@ =~= seq![')']);
    let told = "hub rejected start "@ + "("@ + ("got "@ + shown@) + ")"@;
    assert(told.subrange(told.len() - 5 - shown@.len(), told.len() - 1) =~= seq!['g', 'o', 't', ' ']
        + shown@);
}

} // verus!
