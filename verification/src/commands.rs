//! The commands of the program: what each asks of the hub, and what it makes of the answer.
//!
//! A command runs in steps. The caller connects, sends and receives as it is told, prints what
//! it is given, and passes in how it went.

use vstd::prelude::*;

use crate::formatting;
use crate::notes;
use crate::overview;
use crate::overview_view;
use crate::sorting;
use crate::text;
use crate::formatting::{column_of, format_attached, format_started, plural};
use crate::notes::{
    complaint_of, line_of, no_acts, no_pieces, note_of, one_act, push_act, push_piece, Act, Ink,
    Mark, Note, Piece,
};
use crate::overview_view::display_name_of;
use crate::protocol::{AgentInfo, CliMessage, HubMessage, WorktreeEntry};
use crate::sorting::{sort_by_keys, SortKey};
use crate::text::{copy_of, decimal_of, joined, text_eq, trimmed_text};

verus! {

/// The name of the hub that is used unless another is asked for.
pub const DEFAULT_HUB: &'static str = "default_hub";

/// A command that talks to the hub.
#[derive(Debug, Clone)]
pub enum HubCommand {
    /// Start an agent, and attach to it unless in the background.
    Start {
        prompt: Option<String>,
        background: bool,
        accept_edits: bool,
        agent_binary: Option<String>,
        working_dir: String,
        cols: u16,
        rows: u16,
        hub: String,
    },
    /// Attach to an existing agent by id.
    Attach { id: String },
    /// List all running agents.
    List { hub: Option<String>, batch: Option<String> },
    Bypass { on: bool, off: bool },
    AddRepo { working_dir: String },
    RemoveRepo { working_dir: String },
    StopRepo { working_dir: String },
    ListWorktrees { working_dir: String, repo_name: Option<String> },
    AddWorktree {
        working_dir: String,
        repo_name: Option<String>,
        name: String,
        base_branch: Option<String>,
        checkout: bool,
        prompt: Option<String>,
    },
    RemoveWorktree {
        working_dir: String,
        repo_name: Option<String>,
        branch_name: String,
        delete_local: bool,
        force: bool,
    },
    WorktreeInfo { working_dir: String, repo_name: Option<String>, name: String },
}

/// An attached session with an agent.
#[derive(Debug, Clone)]
pub struct Session {
    pub id: String,
    pub agent_binary: String,
    pub repo_path: Option<String>,
    pub branch_name: Option<String>,
    pub is_worktree: bool,
}

/// How a session ended.
#[derive(Debug, Clone)]
pub enum SessionEnd {
    AgentExited,
    /// The user stepped out of it, or the hub went down.
    Left,
    Failed(String),
}

/// What happened, as the caller reports it.
#[derive(Debug, Clone)]
pub enum CommandEvent {
    Begin,
    Connected,
    ConnectFailed(String),
    Sent,
    SendFailed(String),
    /// The hub's answer. `started` says of each agent in it when it was started.
    Received { message: HubMessage, started: Vec<String> },
    ReceiveFailed(String),
    SessionEnded(SessionEnd),
    CleanedUp,
    /// The agent in the new worktree has been seen to.
    StartedIn,
}

/// What the caller does next.
#[derive(Debug, Clone)]
pub enum Todo {
    /// Nothing but what is printed; more may be reported.
    Nothing,
    /// Connect to the hub, and start it first if that is allowed and needed.
    Connect { may_start: bool },
    Send(CliMessage),
    Receive,
    Attach(Session),
    /// Offer to clean up the worktree of an agent that has gone.
    CleanUp { repo_path: String, branch_name: String },
    /// Start an agent in the background in a new worktree.
    StartIn { prompt: Option<String>, path: String },
    /// The command is over.
    Return,
    Exit(i32),
}

#[derive(Debug, Clone)]
pub enum CommandPhase {
    Ready,
    Connecting,
    Sending,
    Receiving,
    InSession(Session),
    CleaningUp,
    StartingIn,
    Over,
}

/// A command on its way.
pub struct CommandRun {
    pub command: HubCommand,
    pub phase: CommandPhase,
}

// ── Requests ───────────────────────────────────────────────────────

/// The rows that an agent gets: one is kept for the status bar, unless nobody looks at it.
pub open spec fn agent_rows(rows: u16, background: bool) -> u16 {
    if background {
        rows
    } else if rows >= 2 {
        (rows - 1) as u16
    } else {
        1
    }
}

/// Where to look for a repository: a name goes before the current directory.
pub open spec fn dir_unless_named(working_dir: String, repo_name: Option<String>) -> Option<
    String,
> {
    if repo_name is Some {
        None
    } else {
        Some(working_dir)
    }
}

impl HubCommand {
    /// What is asked of the hub.
    pub open spec fn request(self) -> CliMessage {
        match self {
            HubCommand::Start {
                prompt,
                background,
                accept_edits,
                agent_binary,
                working_dir,
                cols,
                rows,
                hub,
            } => CliMessage::StartAgent {
                prompt,
                agent_binary,
                working_dir,
                cols,
                rows: agent_rows(rows, background),
                accept_edits,
                plan_mode: false,
                allow_bypass: false,
                hub,
            },
            HubCommand::Attach { id } => CliMessage::AttachAgent { id },
            HubCommand::List { hub, batch } => CliMessage::ListAgents { hub, batch },
            HubCommand::Bypass { on, off } => if on || off {
                CliMessage::SetBypassPermissions { enabled: on }
            } else {
                CliMessage::GetBypassPermissions
            },
            HubCommand::AddRepo { working_dir } => CliMessage::RegisterRepo { path: working_dir },
            HubCommand::RemoveRepo { working_dir } => CliMessage::UnregisterRepo {
                path: working_dir,
            },
            HubCommand::StopRepo { working_dir } => CliMessage::StopRepoAgents { path: working_dir },
            HubCommand::ListWorktrees { working_dir, repo_name } => CliMessage::ListWorktrees {
                working_dir: dir_unless_named(working_dir, repo_name),
                repo_name,
            },
            HubCommand::AddWorktree { working_dir, repo_name, name, base_branch, checkout, .. } =>
                CliMessage::AddWorktree {
                working_dir: dir_unless_named(working_dir, repo_name),
                repo_name,
                branch_name: name,
                base_branch,
                checkout_existing: checkout,
            },
            HubCommand::RemoveWorktree { working_dir, repo_name, branch_name, delete_local, force } =>
                CliMessage::RemoveWorktree {
                working_dir: dir_unless_named(working_dir, repo_name),
                repo_name,
                branch_name,
                delete_local_branch: delete_local,
                force,
            },
            HubCommand::WorktreeInfo { working_dir, repo_name, name } =>
                CliMessage::GetWorktreeInfo {
                working_dir: dir_unless_named(working_dir, repo_name),
                repo_name,
                branch_name: name,
            },
        }
    }

    /// Whether the command shows a spinner.
    pub open spec fn spins(self) -> bool {
        match self {
            HubCommand::Start { background, .. } => background,
            HubCommand::Attach { .. } => false,
            HubCommand::List { .. } => false,
            _ => true,
        }
    }

    /// What is shown before anything is done.
    pub open spec fn opening(self) -> Seq<notes::ActView> {
        match self {
            HubCommand::Start { background, .. } => if background {
                seq![notes::ActView::Blank, notes::ActView::Spin("starting agent"@)]
            } else {
                Seq::empty()
            },
            HubCommand::Attach { .. } => Seq::empty(),
            HubCommand::List { .. } => Seq::empty(),
            HubCommand::Bypass { .. } => seq![notes::ActView::Blank, notes::ActView::Spin("connecting to hub"@)],
            HubCommand::AddRepo { .. } => seq![notes::ActView::Blank, notes::ActView::Spin("adding repository"@)],
            HubCommand::RemoveRepo { .. } => seq![
                notes::ActView::Blank,
                notes::ActView::Spin("removing repository"@),
            ],
            HubCommand::StopRepo { .. } => seq![notes::ActView::Spin("stopping repo agents"@)],
            HubCommand::ListWorktrees { .. } => seq![
                notes::ActView::Blank,
                notes::ActView::Spin("listing worktrees"@),
            ],
            HubCommand::AddWorktree { name, .. } => seq![
                notes::ActView::Blank,
                notes::ActView::Spin("creating worktree '"@ + name@ + "'"@),
            ],
            HubCommand::RemoveWorktree { branch_name, .. } => seq![
                notes::ActView::Spin("removing worktree '"@ + branch_name@ + "'"@),
            ],
            HubCommand::WorktreeInfo { .. } => seq![
                notes::ActView::Blank,
                notes::ActView::Spin("fetching worktree info"@),
            ],
        }
    }

    /// What is shown once connected.
    pub open spec fn connected(self) -> Seq<notes::ActView> {
        if self is Bypass {
            seq![notes::ActView::SpinOk("connected"@)]
        } else {
            Seq::empty()
        }
    }

    /// What is shown when there is no connection. A list of agents does without; any other
    /// command fails.
    pub open spec fn unreachable(self, e: Seq<char>) -> (Seq<notes::ActView>, Todo) {
        let text = "failed to connect to hub: "@ + e;
        if self is List {
            (
                seq![
                    notes::ActView::Print(
                        notes::NoteView {
                            to_stderr: false,
                            ..notes::complaint("hub not running"@, true, true)
                        },
                    ),
                ],
                Todo::Return,
            )
        } else if self.spins() {
            (seq![notes::ActView::SpinFailed(text)], Todo::Exit(1))
        } else {
            (seq![notes::ActView::Print(notes::complaint(text, true, true))], Todo::Exit(1))
        }
    }

    /// What is shown when the request could not be sent.
    pub open spec fn not_sent(self, e: Seq<char>) -> notes::ActView {
        match self {
            HubCommand::Start { .. } => notes::ActView::Print(
                notes::complaint("failed to send start: "@ + e, true, true),
            ),
            HubCommand::Attach { .. } => notes::ActView::Print(
                notes::complaint("failed to send attach: "@ + e, true, true),
            ),
            HubCommand::List { .. } => notes::ActView::Print(
                notes::complaint("failed to send list: "@ + e, true, true),
            ),
            HubCommand::Bypass { on, off } => notes::ActView::Print(
                notes::complaint(
                    if on || off {
                        "failed to set bypass permissions: "@ + e
                    } else {
                        "failed to query bypass permissions: "@ + e
                    },
                    false,
                    false,
                ),
            ),
            HubCommand::AddRepo { .. } => notes::ActView::SpinFailed("failed to send register: "@ + e),
            HubCommand::RemoveRepo { .. } => notes::ActView::SpinFailed(e),
            HubCommand::StopRepo { .. } => notes::ActView::SpinFailed(e),
            _ => notes::ActView::SpinFailed("failed to send request: "@ + e),
        }
    }

    /// What is shown when no answer came.
    pub open spec fn no_answer(self, e: Seq<char>) -> notes::ActView {
        match self {
            HubCommand::Start { .. } | HubCommand::Attach { .. } | HubCommand::List { .. } => notes::ActView::Print(
                notes::complaint("failed to read response: "@ + e, true, true),
            ),
            HubCommand::RemoveRepo { .. } | HubCommand::StopRepo { .. } => notes::ActView::SpinFailed(e),
            _ => self.unexpected(),
        }
    }

    /// What is shown when the answer makes no sense.
    pub open spec fn unexpected(self) -> notes::ActView {
        match self {
            HubCommand::Bypass { .. } => notes::ActView::Print(
                notes::complaint("unexpected response from hub"@, false, true),
            ),
            HubCommand::RemoveRepo { .. } | HubCommand::StopRepo { .. } => notes::ActView::SpinFailed(
                "unexpected response"@,
            ),
            _ => notes::ActView::SpinFailed("unexpected response from hub"@),
        }
    }

    /// What is shown when the hub refuses.
    pub open spec fn refused(self, message: Seq<char>) -> notes::ActView {
        match self {
            HubCommand::Bypass { on, off } => if on || off {
                notes::ActView::Print(
                    notes::complaint("failed to set bypass permissions: "@ + message, false, true),
                )
            } else {
                self.unexpected()
            },
            _ => if self.spins() {
                notes::ActView::SpinFailed(message)
            } else {
                notes::ActView::Print(notes::complaint(message, true, true))
            },
        }
    }
}

fn copy_option(s: &Option<String>) -> (t: Option<String>)
    ensures
        t == *s,
{
    match s {
        Some(x) => Some(x.clone()),
        None => None,
    }
}

fn dir_for(working_dir: &String, repo_name: &Option<String>) -> (dir: Option<String>)
    ensures
        dir == dir_unless_named(*working_dir, *repo_name),
{
    if repo_name.is_some() {
        None
    } else {
        Some(working_dir.clone())
    }
}

/// The directory that a command works in: the one that was asked for, else the current one.
pub open spec fn chosen_dir(asked: Option<Seq<char>>, current: Option<Seq<char>>) -> Seq<char> {
    match (asked, current) {
        (Some(dir), _) => dir,
        (None, Some(dir)) => dir,
        (None, None) => "."@,
    }
}

pub fn choose_dir(asked: Option<String>, current: Option<String>) -> (dir: String)
    ensures
        dir@ == chosen_dir(overview::opt_view(asked), overview::opt_view(current)),
{
    match (asked, current) {
        (Some(dir), _) => dir,
        (None, Some(dir)) => dir,
        (None, None) => copy_of("."),
    }
}

impl HubCommand {
    /// The message that asks the hub.
    pub fn message(&self) -> (m: CliMessage)
        ensures
            m == self.request(),
    {
        match self {
            HubCommand::Start {
                prompt,
                background,
                accept_edits,
                agent_binary,
                working_dir,
                cols,
                rows,
                hub,
            } => CliMessage::StartAgent {
                prompt: copy_option(prompt),
                agent_binary: copy_option(agent_binary),
                working_dir: working_dir.clone(),
                cols: *cols,
                // One row is kept for the status bar
                rows: if *background {
                    *rows
                } else if *rows >= 2 {
                    *rows - 1
                } else {
                    1
                },
                accept_edits: *accept_edits,
                plan_mode: false,
                allow_bypass: false,
                hub: hub.clone(),
            },
            HubCommand::Attach { id } => CliMessage::AttachAgent { id: id.clone() },
            HubCommand::List { hub, batch } => CliMessage::ListAgents {
                hub: copy_option(hub),
                batch: copy_option(batch),
            },
            HubCommand::Bypass { on, off } => if *on || *off {
                CliMessage::SetBypassPermissions { enabled: *on }
            } else {
                CliMessage::GetBypassPermissions
            },
            HubCommand::AddRepo { working_dir } => CliMessage::RegisterRepo {
                path: working_dir.clone(),
            },
            HubCommand::RemoveRepo { working_dir } => CliMessage::UnregisterRepo {
                path: working_dir.clone(),
            },
            HubCommand::StopRepo { working_dir } => CliMessage::StopRepoAgents {
                path: working_dir.clone(),
            },
            HubCommand::ListWorktrees { working_dir, repo_name } => CliMessage::ListWorktrees {
                working_dir: dir_for(working_dir, repo_name),
                repo_name: copy_option(repo_name),
            },
            HubCommand::AddWorktree { working_dir, repo_name, name, base_branch, checkout, .. } =>
                CliMessage::AddWorktree {
                working_dir: dir_for(working_dir, repo_name),
                repo_name: copy_option(repo_name),
                branch_name: name.clone(),
                base_branch: copy_option(base_branch),
                checkout_existing: *checkout,
            },
            HubCommand::RemoveWorktree { working_dir, repo_name, branch_name, delete_local, force } =>
                CliMessage::RemoveWorktree {
                working_dir: dir_for(working_dir, repo_name),
                repo_name: copy_option(repo_name),
                branch_name: branch_name.clone(),
                delete_local_branch: *delete_local,
                force: *force,
            },
            HubCommand::WorktreeInfo { working_dir, repo_name, name } =>
                CliMessage::GetWorktreeInfo {
                working_dir: dir_for(working_dir, repo_name),
                repo_name: copy_option(repo_name),
                branch_name: name.clone(),
            },
        }
    }

    fn has_spinner(&self) -> (yes: bool)
        ensures
            yes == self.spins(),
    {
        match self {
            HubCommand::Start { background, .. } => *background,
            HubCommand::Attach { .. } => false,
            HubCommand::List { .. } => false,
            _ => true,
        }
    }

    fn open(&self) -> (acts: Vec<Act>)
        ensures
            notes::acts_view(acts@) == self.opening(),
    {
        let spin = match self {
            HubCommand::Start { background, .. } => {
                if !*background {
                    return no_acts();
                }
                copy_of("starting agent")
            },
            HubCommand::Attach { .. } => return no_acts(),
            HubCommand::List { .. } => return no_acts(),
            HubCommand::Bypass { .. } => copy_of("connecting to hub"),
            HubCommand::AddRepo { .. } => copy_of("adding repository"),
            HubCommand::RemoveRepo { .. } => copy_of("removing repository"),
            HubCommand::StopRepo { .. } => copy_of("stopping repo agents"),
            HubCommand::ListWorktrees { .. } => copy_of("listing worktrees"),
            HubCommand::AddWorktree { name, .. } => {
                let mut s = joined("creating worktree '", name.as_str());
                s.push_str("'");
                s
            },
            HubCommand::RemoveWorktree { branch_name, .. } => {
                let mut s = joined("removing worktree '", branch_name.as_str());
                s.push_str("'");
                s
            },
            HubCommand::WorktreeInfo { .. } => copy_of("fetching worktree info"),
        };
        let mut acts = no_acts();
        match self {
            HubCommand::StopRepo { .. } | HubCommand::RemoveWorktree { .. } => {},
            _ => push_act(&mut acts, Act::Blank),
        }
        push_act(&mut acts, Act::Spin(spin));
        assert(notes::acts_view(acts@) =~= self.opening());
        acts
    }

    fn on_unreachable(&self, e: &str) -> (outcome: (Vec<Act>, Todo))
        ensures
            (notes::acts_view(outcome.0@), outcome.1) == self.unreachable(e@),
    {
        let text = joined("failed to connect to hub: ", e);
        match self {
            HubCommand::List { .. } => {
                let mut note = complaint_of("hub not running", true, true);
                note.to_stderr = false;
                (one_act(Act::Print(note)), Todo::Return)
            },
            _ => if self.has_spinner() {
                (one_act(Act::SpinFailed(text)), Todo::Exit(1))
            } else {
                (
                    one_act(Act::Print(complaint_of(text.as_str(), true, true))),
                    Todo::Exit(1),
                )
            },
        }
    }

    fn on_not_sent(&self, e: &str) -> (act: Act)
        ensures
            act@ == self.not_sent(e@),
    {
        match self {
            HubCommand::Start { .. } => Act::Print(
                complaint_of(joined("failed to send start: ", e).as_str(), true, true),
            ),
            HubCommand::Attach { .. } => Act::Print(
                complaint_of(joined("failed to send attach: ", e).as_str(), true, true),
            ),
            HubCommand::List { .. } => Act::Print(
                complaint_of(joined("failed to send list: ", e).as_str(), true, true),
            ),
            HubCommand::Bypass { on, off } => if *on || *off {
                Act::Print(
                    complaint_of(
                        joined("failed to set bypass permissions: ", e).as_str(),
                        false,
                        false,
                    ),
                )
            } else {
                Act::Print(
                    complaint_of(
                        joined("failed to query bypass permissions: ", e).as_str(),
                        false,
                        false,
                    ),
                )
            },
            HubCommand::AddRepo { .. } => Act::SpinFailed(joined("failed to send register: ", e)),
            HubCommand::RemoveRepo { .. } => Act::SpinFailed(copy_of(e)),
            HubCommand::StopRepo { .. } => Act::SpinFailed(copy_of(e)),
            _ => Act::SpinFailed(joined("failed to send request: ", e)),
        }
    }

    fn on_no_answer(&self, e: &str) -> (act: Act)
        ensures
            act@ == self.no_answer(e@),
    {
        match self {
            HubCommand::Start { .. } | HubCommand::Attach { .. } | HubCommand::List { .. } => Act::Print(
                complaint_of(joined("failed to read response: ", e).as_str(), true, true),
            ),
            HubCommand::RemoveRepo { .. } | HubCommand::StopRepo { .. } => Act::SpinFailed(copy_of(e)),
            _ => self.on_unexpected(),
        }
    }

    fn on_unexpected(&self) -> (act: Act)
        ensures
            act@ == self.unexpected(),
    {
        match self {
            HubCommand::Bypass { .. } => Act::Print(
                complaint_of("unexpected response from hub", false, true),
            ),
            HubCommand::RemoveRepo { .. } | HubCommand::StopRepo { .. } => Act::SpinFailed(
                copy_of("unexpected response"),
            ),
            _ => Act::SpinFailed(copy_of("unexpected response from hub")),
        }
    }

    fn on_refused(&self, message: &str) -> (act: Act)
        ensures
            act@ == self.refused(message@),
    {
        match self {
            HubCommand::Bypass { on, off } => if *on || *off {
                Act::Print(
                    complaint_of(
                        joined("failed to set bypass permissions: ", message).as_str(),
                        false,
                        true,
                    ),
                )
            } else {
                self.on_unexpected()
            },
            _ => if self.has_spinner() {
                Act::SpinFailed(copy_of(message))
            } else {
                Act::Print(complaint_of(message, true, true))
            },
        }
    }
}

// ── Tables ─────────────────────────────────────────────────────────

/// A value, or a dash.
pub open spec fn or_dash(s: Option<Seq<char>>) -> Seq<char> {
    match s {
        Some(t) => t,
        None => "—"@,
    }
}

/// The last component of a path, or a dash.
pub open spec fn repo_or_dash(path: Option<Seq<char>>) -> Seq<char> {
    match path {
        Some(p) => overview_view::display_name(p),
        None => "—"@,
    }
}

pub open spec fn agent_header_note() -> notes::NoteView {
    notes::line_note(
        Ink::Tertiary,
        formatting::column("ID"@, 8) + " "@ + formatting::column("AGENT"@, 12) + " "@ + formatting::column("REPO"@, 16) + " "@
            + formatting::column("BRANCH"@, 20) + " "@ + formatting::column("STATUS"@, 10) + " "@ + formatting::column("STARTED"@, 14)
            + " "@ + formatting::column("BATCH"@, 12) + " ATTACHED"@,
    )
}

/// One agent in a table.
pub open spec fn agent_row_note(agent: AgentInfo, started: Seq<char>) -> notes::NoteView {
    notes::plain_note(
        seq![
            notes::piece(Ink::Accent, formatting::column(agent.id@, 8)),
            notes::piece(Ink::Plain, " "@),
            notes::piece(Ink::Primary, formatting::column(agent.agent_binary@, 12)),
            notes::piece(Ink::Plain, " "@),
            notes::piece(Ink::Secondary, formatting::column(repo_or_dash(overview::opt_view(agent.repo_path)), 16)),
            notes::piece(Ink::Plain, " "@),
            notes::piece(Ink::Secondary, formatting::column(or_dash(overview::opt_view(agent.branch_name)), 20)),
            notes::piece(Ink::Plain, " "@),
            notes::piece(Ink::Success, formatting::column("running"@, 10)),
            notes::piece(Ink::Plain, " "@),
            notes::piece(Ink::Secondary, formatting::column(started, 14)),
            notes::piece(Ink::Plain, " "@),
            notes::piece(Ink::Secondary, formatting::column(or_dash(overview::opt_view(agent.batch_title)), 12)),
            notes::piece(Ink::Plain, " "@),
            notes::piece(Ink::Secondary, formatting::attached_text(agent.attached_clients as int)),
        ],
    )
}

fn text_or_dash(s: &Option<String>) -> (t: String)
    ensures
        t@ == or_dash(overview::opt_view(*s)),
{
    match s {
        Some(t) => t.clone(),
        None => copy_of("—"),
    }
}

/// A repository's name in a table.
pub fn repo_text(path: &Option<String>) -> (t: String)
    ensures
        t@ == repo_or_dash(overview::opt_view(*path)),
{
    match path {
        Some(p) => display_name_of(p.as_str()),
        None => copy_of("—"),
    }
}

fn push_column(pieces: &mut Vec<Piece>, ink: Ink, text: &str, width: usize)
    ensures
        notes::pieces_view(final(pieces)@) == notes::pieces_view(old(pieces)@).push(
            notes::piece(ink, formatting::column(text@, width as int)),
        ).push(notes::piece(Ink::Plain, " "@)),
{
    let cell = column_of(text, width);
    push_piece(pieces, ink, cell.as_str());
    push_piece(pieces, Ink::Plain, " ");
}

pub fn agent_header() -> (note: Note)
    ensures
        note@ == agent_header_note(),
{
    let mut line = column_of("ID", 8);
    line.push_str(" ");
    line.push_str(column_of("AGENT", 12).as_str());
    line.push_str(" ");
    line.push_str(column_of("REPO", 16).as_str());
    line.push_str(" ");
    line.push_str(column_of("BRANCH", 20).as_str());
    line.push_str(" ");
    line.push_str(column_of("STATUS", 10).as_str());
    line.push_str(" ");
    line.push_str(column_of("STARTED", 14).as_str());
    line.push_str(" ");
    line.push_str(column_of("BATCH", 12).as_str());
    line.push_str(" ATTACHED");
    line_of(Ink::Tertiary, line.as_str())
}

pub fn agent_row(agent: &AgentInfo, started: &str) -> (note: Note)
    ensures
        note@ == agent_row_note(*agent, started@),
{
    let repo = repo_text(&agent.repo_path);
    let branch = text_or_dash(&agent.branch_name);
    let batch = text_or_dash(&agent.batch_title);
    let attached = format_attached(agent.attached_clients);
    let mut pieces = no_pieces();
    push_column(&mut pieces, Ink::Accent, agent.id.as_str(), 8);
    push_column(&mut pieces, Ink::Primary, agent.agent_binary.as_str(), 12);
    push_column(&mut pieces, Ink::Secondary, repo.as_str(), 16);
    push_column(&mut pieces, Ink::Secondary, branch.as_str(), 20);
    push_column(&mut pieces, Ink::Success, "running", 10);
    push_column(&mut pieces, Ink::Secondary, started, 14);
    push_column(&mut pieces, Ink::Secondary, batch.as_str(), 12);
    push_piece(&mut pieces, Ink::Secondary, attached.as_str());
    let note = note_of(pieces);
    assert(note@.pieces =~= agent_row_note(*agent, started@).pieces);
    note
}

/// The keys by which agents are grouped: the hub, and then when they were started.
pub open spec fn agent_keys(agents: Seq<AgentInfo>) -> Seq<sorting::KeyView> {
    agents.map_values(
        |a: AgentInfo| sorting::KeyView { group: 0, name: Some(a.hub@), id: a.started_at@ },
    )
}

/// The order in which agents of all hubs are listed.
pub open spec fn agent_order(agents: Seq<AgentInfo>) -> Seq<usize> {
    sorting::sorted(overview::first_indices(agents.len()), agent_keys(agents))
}

/// Agents in an order, below a heading for every hub.
pub open spec fn grouped_rows(
    agents: Seq<AgentInfo>,
    started: Seq<Seq<char>>,
    order: Seq<usize>,
) -> Seq<notes::ActView>
    decreases order.len(),
{
    if order.len() == 0 {
        Seq::empty()
    } else {
        let before = order.drop_last();
        let agent = agents[order.last() as int];
        let rows = grouped_rows(agents, started, before);
        let headed = if before.len() > 0 && agents[before.last() as int].hub@ == agent.hub@ {
            rows
        } else {
            (if before.len() > 0 {
                rows.push(notes::ActView::Blank)
            } else {
                rows
            }).push(notes::ActView::Print(notes::line_note(Ink::Accent, agent.hub@))).push(
                notes::ActView::Print(agent_header_note()),
            )
        };
        headed.push(notes::ActView::Print(agent_row_note(agent, started[order.last() as int])))
    }
}

/// What a list of agents looks like: grouped by hub, unless one hub was asked for.
pub open spec fn agents_listed(
    agents: Seq<AgentInfo>,
    started: Seq<Seq<char>>,
    one_hub: bool,
) -> Seq<notes::ActView> {
    let rows = if agents.len() == 0 {
        seq![notes::ActView::Print(notes::line_note(Ink::Secondary, "no running agents"@))]
    } else if one_hub {
        seq![notes::ActView::Print(agent_header_note())] + Seq::new(
            agents.len(),
            |i: int| notes::ActView::Print(agent_row_note(agents[i], started[i])),
        )
    } else {
        grouped_rows(agents, started, agent_order(agents))
    };
    (seq![notes::ActView::Blank] + rows).push(notes::ActView::Blank)
}

/// Lists agents; `started` says of each when it was started.
pub fn list_agents(agents: &Vec<AgentInfo>, started: &Vec<String>, one_hub: bool) -> (acts: Vec<
    Act,
>)
    requires
        started@.len() == agents@.len(),
    ensures
        notes::acts_view(acts@) == agents_listed(agents@, text::strings_view(started@), one_hub),
{
    let ghost texts = text::strings_view(started@);
    let mut acts = one_act(Act::Blank);
    if agents.len() == 0 {
        push_act(&mut acts, Act::Print(line_of(Ink::Secondary, "no running agents")));
        push_act(&mut acts, Act::Blank);
        assert(notes::acts_view(acts@) =~= agents_listed(agents@, texts, one_hub));
        return acts;
    }
    if one_hub {
        let ghost rows = Seq::new(
            agents@.len(),
            |i: int| notes::ActView::Print(agent_row_note(agents@[i], texts[i])),
        );
        // Filtered to a single hub — flat display, no header
        push_act(&mut acts, Act::Print(agent_header()));
        let ghost first = notes::acts_view(acts@);
        let mut i: usize = 0;
        assert(first + rows.take(0) =~= first);
        while i < agents.len()
            invariant
                i <= agents@.len(),
                started@.len() == agents@.len(),
                texts == text::strings_view(started@),
                rows == Seq::new(
                    agents@.len(),
                    |i: int| notes::ActView::Print(agent_row_note(agents@[i], texts[i])),
                ),
                notes::acts_view(acts@) == first + rows.take(i as int),
            decreases agents@.len() - i,
        {
            let row = agent_row(&agents[i], started[i].as_str());
            assert(rows[i as int] == notes::ActView::Print(row@));
            push_act(&mut acts, Act::Print(row));
            i += 1;
            assert(notes::acts_view(acts@) =~= first + rows.take(i as int));
        }
        push_act(&mut acts, Act::Blank);
        assert(rows.take(i as int) =~= rows);
        assert(notes::acts_view(acts@) =~= agents_listed(agents@, texts, one_hub));
        return acts;
    }
    // All hubs — group by hub name
    let mut keys: Vec<SortKey> = Vec::new();
    let mut chosen: Vec<usize> = Vec::new();
    let mut k: usize = 0;
    while k < agents.len()
        invariant
            k <= agents@.len(),
            keys@.len() == k,
            chosen@ == overview::first_indices(k as nat),
            forall|j: int| 0 <= j < k ==> (#[trigger] keys@[j])@ == agent_keys(agents@)[j],
        decreases agents@.len() - k,
    {
        keys.push(
            SortKey {
                group: 0,
                name: Some(agents[k].hub.clone()),
                id: agents[k].started_at.clone(),
            },
        );
        chosen.push(k);
        k += 1;
        assert(chosen@ =~= overview::first_indices(k as nat));
    }
    assert(crate::sorting::keys_view(keys@) =~= agent_keys(agents@));
    let order = sort_by_keys(&chosen, &keys);
    proof {
        crate::sorting::sorting_permutes_into_order(overview::first_indices(agents@.len()), agent_keys(agents@));
    }
    let ghost first = notes::acts_view(acts@);
    let mut i: usize = 0;
    assert(order@.take(0) =~= Seq::<usize>::empty());
    assert(first + grouped_rows(agents@, texts, order@.take(0)) =~= first);
    while i < order.len()
        invariant
            i <= order@.len(),
            started@.len() == agents@.len(),
            texts == text::strings_view(started@),
            forall|j: int| 0 <= j < order@.len() ==> (#[trigger] order@[j]) < agents@.len(),
            notes::acts_view(acts@) == first + grouped_rows(agents@, texts, order@.take(i as int)),
        decreases order@.len() - i,
    {
        let ghost rows = grouped_rows(agents@, texts, order@.take(i as int));
        let ghost next = order@.take(i + 1);
        proof {
            assert(next.drop_last() =~= order@.take(i as int));
            assert(next.last() == order@[i as int]);
            if i > 0 {
                assert(order@.take(i as int).last() == order@[i - 1]);
            }
        }
        let agent = &agents[order[i]];
        let same = i > 0 && text_eq(agents[order[i - 1]].hub.as_str(), agent.hub.as_str());
        if !same {
            if i > 0 {
                // blank line between hubs
                push_act(&mut acts, Act::Blank);
            }
            push_act(&mut acts, Act::Print(line_of(Ink::Accent, agent.hub.as_str())));
            push_act(&mut acts, Act::Print(agent_header()));
        }
        push_act(&mut acts, Act::Print(agent_row(agent, started[order[i]].as_str())));
        assert(notes::acts_view(acts@) =~= first + grouped_rows(agents@, texts, next));
        i += 1;
    }
    assert(order@.take(i as int) =~= order@);
    push_act(&mut acts, Act::Blank);
    assert(notes::acts_view(acts@) =~= agents_listed(agents@, texts, one_hub));
    acts
}

/// One worktree in a table.
pub open spec fn worktree_row_note(wt: WorktreeEntry) -> notes::NoteView {
    notes::plain_note(
        seq![
            notes::piece(
                Ink::Accent,
                if wt.is_main {
                    "●"@
                } else {
                    " "@
                },
            ),
            notes::piece(Ink::Plain, " "@),
            notes::piece(
                if wt.is_main {
                    Ink::AccentBright
                } else {
                    Ink::Primary
                },
                formatting::column(wt.branch_name@, 24),
            ),
            notes::piece(Ink::Plain, " "@),
            notes::piece(Ink::Secondary, formatting::column(text::decimal(wt.active_agents@.len()), 8)),
            notes::piece(Ink::Plain, " "@),
            notes::piece(
                if wt.is_dirty {
                    Ink::Warning
                } else {
                    Ink::Secondary
                },
                dirt(wt.is_dirty),
            ),
        ],
    )
}

pub open spec fn dirt(is_dirty: bool) -> Seq<char> {
    if is_dirty {
        "dirty"@
    } else {
        "clean"@
    }
}

fn dirt_text(is_dirty: bool) -> (s: &'static str)
    ensures
        s@ == dirt(is_dirty),
{
    if is_dirty {
        "dirty"
    } else {
        "clean"
    }
}

fn worktree_row(wt: &WorktreeEntry) -> (note: Note)
    ensures
        note@ == worktree_row_note(*wt),
{
    let count = decimal_of(wt.active_agents.len());
    let mut pieces = no_pieces();
    if wt.is_main {
        push_piece(&mut pieces, Ink::Accent, "●");
    } else {
        push_piece(&mut pieces, Ink::Accent, " ");
    }
    push_piece(&mut pieces, Ink::Plain, " ");
    let ink = if wt.is_main {
        Ink::AccentBright
    } else {
        Ink::Primary
    };
    push_column(&mut pieces, ink, wt.branch_name.as_str(), 24);
    push_column(&mut pieces, Ink::Secondary, count.as_str(), 8);
    let ink = if wt.is_dirty {
        Ink::Warning
    } else {
        Ink::Secondary
    };
    push_piece(&mut pieces, ink, dirt_text(wt.is_dirty));
    let note = note_of(pieces);
    assert(note@.pieces =~= worktree_row_note(*wt).pieces);
    note
}

pub open spec fn worktree_header_note() -> notes::NoteView {
    notes::line_note(
        Ink::Tertiary,
        "  "@ + formatting::column("BRANCH"@, 24) + " "@ + formatting::column("AGENTS"@, 8) + " STATUS"@,
    )
}

/// The worktrees of a repository.
pub open spec fn worktrees_listed(name: Seq<char>, worktrees: Seq<WorktreeEntry>) -> Seq<notes::ActView> {
    let first = seq![
        notes::ActView::SpinOk(
            text::decimal(worktrees.len()) + " worktree"@ + formatting::plural_end(worktrees.len() as int),
        ),
        notes::ActView::Blank,
    ];
    if worktrees.len() == 0 {
        first.push(notes::ActView::Print(notes::line_note(Ink::Secondary, "no worktrees"@))).push(notes::ActView::Blank)
    } else {
        (first + seq![
            notes::ActView::Print(notes::line_note(Ink::Accent, name)),
            notes::ActView::Blank,
            notes::ActView::Print(worktree_header_note()),
        ] + Seq::new(
            worktrees.len(),
            |i: int| notes::ActView::Print(worktree_row_note(worktrees[i])),
        )).push(notes::ActView::Blank)
    }
}

pub fn list_worktrees(name: &str, worktrees: &Vec<WorktreeEntry>) -> (acts: Vec<Act>)
    ensures
        notes::acts_view(acts@) == worktrees_listed(name@, worktrees@),
{
    let count = worktrees.len();
    let mut said = decimal_of(count);
    said.push_str(" worktree");
    said.push_str(plural(count));
    let mut acts = one_act(Act::SpinOk(said));
    push_act(&mut acts, Act::Blank);
    if count == 0 {
        push_act(&mut acts, Act::Print(line_of(Ink::Secondary, "no worktrees")));
        push_act(&mut acts, Act::Blank);
        assert(notes::acts_view(acts@) =~= worktrees_listed(name@, worktrees@));
        return acts;
    }
    push_act(&mut acts, Act::Print(line_of(Ink::Accent, name)));
    push_act(&mut acts, Act::Blank);
    let mut header = joined("  ", column_of("BRANCH", 24).as_str());
    header.push_str(" ");
    header.push_str(column_of("AGENTS", 8).as_str());
    header.push_str(" STATUS");
    push_act(&mut acts, Act::Print(line_of(Ink::Tertiary, header.as_str())));
    let ghost rows = Seq::new(
        worktrees@.len(),
        |i: int| notes::ActView::Print(worktree_row_note(worktrees@[i])),
    );
    let ghost first = notes::acts_view(acts@);
    let mut i: usize = 0;
    assert(first + rows.take(0) =~= first);
    while i < worktrees.len()
        invariant
            i <= worktrees@.len(),
            rows == Seq::new(
                worktrees@.len(),
                |i: int| notes::ActView::Print(worktree_row_note(worktrees@[i])),
            ),
            notes::acts_view(acts@) == first + rows.take(i as int),
        decreases worktrees@.len() - i,
    {
        push_act(&mut acts, Act::Print(worktree_row(&worktrees[i])));
        i += 1;
        assert(notes::acts_view(acts@) =~= first + rows.take(i as int));
    }
    assert(rows.take(i as int) =~= rows);
    push_act(&mut acts, Act::Blank);
    assert(notes::acts_view(acts@) =~= worktrees_listed(name@, worktrees@));
    acts
}

/// A labelled value.
pub open spec fn field_note(label: Seq<char>, gap: Seq<char>, ink: Ink, value: Seq<char>) -> notes::NoteView {
    notes::plain_note(seq![notes::piece(Ink::Secondary, label), notes::piece(Ink::Plain, gap), notes::piece(ink, value)])
}

fn field_of(label: &str, gap: &str, ink: Ink, value: &str) -> (note: Note)
    ensures
        note@ == field_note(label@, gap@, ink, value@),
{
    let mut pieces = no_pieces();
    push_piece(&mut pieces, Ink::Secondary, label);
    push_piece(&mut pieces, Ink::Plain, gap);
    push_piece(&mut pieces, ink, value);
    let note = note_of(pieces);
    assert(note@.pieces =~= field_note(label@, gap@, ink, value@).pieces);
    note
}

/// An agent in the description of a worktree.
pub open spec fn inner_agent_note(agent: AgentInfo, started: Seq<char>) -> notes::NoteView {
    notes::plain_note(
        seq![
            notes::piece(Ink::Plain, "             "@),
            notes::piece(Ink::Accent, agent.id@),
            notes::piece(Ink::Plain, "  "@),
            notes::piece(Ink::Primary, agent.agent_binary@),
            notes::piece(Ink::Plain, "  "@),
            notes::piece(Ink::Secondary, started),
            notes::piece(Ink::Plain, "  "@),
            notes::piece(Ink::Secondary, formatting::attached_text(agent.attached_clients as int)),
        ],
    )
}

fn inner_agent(agent: &AgentInfo, started: &str) -> (note: Note)
    ensures
        note@ == inner_agent_note(*agent, started@),
{
    let attached = format_attached(agent.attached_clients);
    let mut pieces = no_pieces();
    push_piece(&mut pieces, Ink::Plain, "             ");
    push_piece(&mut pieces, Ink::Accent, agent.id.as_str());
    push_piece(&mut pieces, Ink::Plain, "  ");
    push_piece(&mut pieces, Ink::Primary, agent.agent_binary.as_str());
    push_piece(&mut pieces, Ink::Plain, "  ");
    push_piece(&mut pieces, Ink::Secondary, started);
    push_piece(&mut pieces, Ink::Plain, "  ");
    push_piece(&mut pieces, Ink::Secondary, attached.as_str());
    let note = note_of(pieces);
    assert(note@.pieces =~= inner_agent_note(*agent, started@).pieces);
    note
}

/// The description of a worktree.
pub open spec fn worktree_described(info: WorktreeEntry, started: Seq<Seq<char>>) -> Seq<notes::ActView> {
    let count = info.active_agents@.len();
    (seq![
        notes::ActView::SpinOk("worktree '"@ + info.branch_name@ + "'"@),
        notes::ActView::Blank,
        notes::ActView::Print(field_note("branch"@, "     "@, Ink::Primary, info.branch_name@)),
        notes::ActView::Print(field_note("path"@, "       "@, Ink::Primary, info.path@)),
        notes::ActView::Print(
            field_note(
                "status"@,
                "     "@,
                if info.is_dirty {
                    Ink::Warning
                } else {
                    Ink::Success
                },
                dirt(info.is_dirty),
            ),
        ),
        notes::ActView::Print(
            field_note(
                "agents"@,
                "     "@,
                Ink::Primary,
                if count == 0 {
                    "none"@
                } else {
                    text::decimal(count) + " running"@
                },
            ),
        ),
    ] + Seq::new(
        count,
        |i: int| notes::ActView::Print(inner_agent_note(info.active_agents@[i], started[i])),
    )).push(notes::ActView::Blank)
}

/// Describes a worktree; `started` says of each of its agents when it was started.
pub fn describe_worktree(info: &WorktreeEntry, started: &Vec<String>) -> (acts: Vec<Act>)
    requires
        started@.len() == info.active_agents@.len(),
    ensures
        notes::acts_view(acts@) == worktree_described(*info, text::strings_view(started@)),
{
    let ghost texts = text::strings_view(started@);
    let mut said = joined("worktree '", info.branch_name.as_str());
    said.push_str("'");
    let mut acts = one_act(Act::SpinOk(said));
    push_act(&mut acts, Act::Blank);
    push_act(
        &mut acts,
        Act::Print(field_of("branch", "     ", Ink::Primary, info.branch_name.as_str())),
    );
    push_act(
        &mut acts,
        Act::Print(field_of("path", "       ", Ink::Primary, info.path.as_str())),
    );
    let ink = if info.is_dirty {
        Ink::Warning
    } else {
        Ink::Success
    };
    push_act(&mut acts, Act::Print(field_of("status", "     ", ink, dirt_text(info.is_dirty))));
    let count = info.active_agents.len();
    let running = if count == 0 {
        copy_of("none")
    } else {
        let mut s = decimal_of(count);
        s.push_str(" running");
        s
    };
    push_act(
        &mut acts,
        Act::Print(field_of("agents", "     ", Ink::Primary, running.as_str())),
    );
    let ghost rows = Seq::new(
        count as nat,
        |i: int| notes::ActView::Print(inner_agent_note(info.active_agents@[i], texts[i])),
    );
    let ghost first = notes::acts_view(acts@);
    let mut i: usize = 0;
    assert(first + rows.take(0) =~= first);
    while i < count
        invariant
            i <= count,
            count == info.active_agents@.len(),
            started@.len() == count,
            texts == text::strings_view(started@),
            rows == Seq::new(
                count as nat,
                |i: int| notes::ActView::Print(inner_agent_note(info.active_agents@[i], texts[i])),
            ),
            notes::acts_view(acts@) == first + rows.take(i as int),
        decreases count - i,
    {
        push_act(
            &mut acts,
            Act::Print(inner_agent(&info.active_agents[i], started[i].as_str())),
        );
        i += 1;
        assert(notes::acts_view(acts@) =~= first + rows.take(i as int));
    }
    assert(rows.take(i as int) =~= rows);
    push_act(&mut acts, Act::Blank);
    assert(notes::acts_view(acts@) =~= worktree_described(*info, texts));
    acts
}

// ── Answers ────────────────────────────────────────────────────────

/// So many agents, stopped.
pub open spec fn stopped_text(count: int) -> Seq<char> {
    text::decimal(count as nat) + " agent"@ + formatting::plural_end(count) + " stopped"@
}

fn stopped_of(count: usize) -> (s: String)
    ensures
        s@ == stopped_text(count as int),
{
    let mut s = decimal_of(count);
    s.push_str(" agent");
    s.push_str(plural(count));
    s.push_str(" stopped");
    s
}

/// That something is gone, and how many agents went with it.
pub open spec fn removed_text(what: Seq<char>, name: Seq<char>, stopped: int) -> Seq<char> {
    let done = what + " '"@ + name + "' removed"@;
    if stopped > 0 {
        done + " ("@ + stopped_text(stopped) + ")"@
    } else {
        done
    }
}

fn removed_of(what: &str, name: &str, stopped: usize) -> (s: String)
    ensures
        s@ == removed_text(what@, name@, stopped as int),
{
    let mut s = joined(what, " '");
    s.push_str(name);
    s.push_str("' removed");
    if stopped > 0 {
        s.push_str(" (");
        s.push_str(stopped_of(stopped).as_str());
        s.push_str(")");
    }
    s
}

pub open spec fn on_off(enabled: bool) -> Seq<char> {
    if enabled {
        "on"@
    } else {
        "off"@
    }
}

/// The state of the permission bypass.
pub open spec fn bypass_note(enabled: bool, changed: bool) -> notes::NoteView {
    notes::NoteView {
        to_stderr: false,
        mark: if changed {
            Mark::Tick
        } else {
            Mark::Bare
        },
        pieces: seq![
            notes::piece(Ink::Primary, "bypass permissions: "@),
            notes::piece(Ink::Accent, on_off(enabled)),
        ],
        spaced_before: false,
        spaced_after: true,
    }
}

fn bypass_of(enabled: bool, changed: bool) -> (note: Note)
    ensures
        note@ == bypass_note(enabled, changed),
{
    let mut pieces = no_pieces();
    push_piece(&mut pieces, Ink::Primary, "bypass permissions: ");
    push_piece(
        &mut pieces,
        Ink::Accent,
        if enabled {
            "on"
        } else {
            "off"
        },
    );
    let note = Note {
        to_stderr: false,
        mark: if changed {
            Mark::Tick
        } else {
            Mark::Bare
        },
        pieces,
        spaced_before: false,
        spaced_after: true,
    };
    assert(note@ =~= bypass_note(enabled, changed));
    note
}

/// The prompt for an agent in a new worktree: an empty one is none.
pub open spec fn prompt_or_none(prompt: String) -> Option<String> {
    if prompt@.len() == 0 {
        None
    } else {
        Some(prompt)
    }
}

/// The agents that an answer lists.
pub open spec fn agents_in(message: HubMessage) -> Seq<AgentInfo> {
    match message {
        HubMessage::AgentList { agents } => agents@,
        HubMessage::WorktreeInfoResult { info } => info.active_agents@,
        _ => Seq::empty(),
    }
}

/// Whether texts say of each agent when it was started.
pub open spec fn show_starts(agents: Seq<AgentInfo>, started: Seq<String>) -> bool {
    &&& started.len() == agents.len()
    &&& forall|i: int|
        0 <= i < agents.len() ==> formatting::shows_start(
            agents[i].started_at@,
            (#[trigger] started[i])@,
        )
}

/// When each of these agents was started.
pub fn started_of(agents: &Vec<AgentInfo>) -> (started: Vec<String>)
    ensures
        show_starts(agents@, started@),
{
    let mut started: Vec<String> = Vec::new();
    let mut i: usize = 0;
    while i < agents.len()
        invariant
            i <= agents@.len(),
            started@.len() == i,
            forall|k: int|
                0 <= k < i ==> formatting::shows_start(
                    agents@[k].started_at@,
                    (#[trigger] started@[k])@,
                ),
        decreases agents@.len() - i,
    {
        started.push(format_started(agents[i].started_at.as_str()));
        i += 1;
    }
    started
}

/// When each of the agents in an answer of the hub was started.
pub fn started_in(message: &HubMessage) -> (started: Vec<String>)
    ensures
        show_starts(agents_in(*message), started@),
{
    match message {
        HubMessage::AgentList { agents } => started_of(agents),
        HubMessage::WorktreeInfoResult { info } => started_of(&info.active_agents),
        _ => Vec::new(),
    }
}

impl HubCommand {
    /// Whether an answer that makes no sense is passed over in silence.
    pub open spec fn tolerant(self) -> bool {
        self is Start || self is Attach || self is List
    }

    /// What is shown for an answer of the hub, and what comes next.
    pub open spec fn answered(self, message: HubMessage, started: Seq<Seq<char>>) -> (
        Seq<notes::ActView>,
        Todo,
    ) {
        if message is Error {
            (seq![self.refused(message->Error_message@)], Todo::Exit(1))
        } else {
            match (self, message) {
                (
                    HubCommand::Start { background, .. },
                    HubMessage::AgentStarted {
                        id,
                        agent_binary,
                        is_worktree,
                        repo_path,
                        branch_name,
                    },
                ) => if background {
                    (seq![notes::ActView::SpinOk("agent "@ + id@ + " started"@)], Todo::Return)
                } else {
                    (
                        Seq::empty(),
                        Todo::Attach(
                            Session { id, agent_binary, repo_path, branch_name, is_worktree },
                        ),
                    )
                },
                (
                    HubCommand::Attach { .. },
                    HubMessage::AgentAttached {
                        id,
                        agent_binary,
                        is_worktree,
                        repo_path,
                        branch_name,
                    },
                ) => (
                    Seq::empty(),
                    Todo::Attach(Session { id, agent_binary, repo_path, branch_name, is_worktree }),
                ),
                (HubCommand::List { hub, .. }, HubMessage::AgentList { agents }) => (
                    agents_listed(agents@, started, hub is Some),
                    Todo::Return,
                ),
                (HubCommand::Bypass { on, off }, HubMessage::Done) => if on || off {
                    (seq![notes::ActView::Print(bypass_note(on, true))], Todo::Return)
                } else {
                    (seq![self.unexpected()], Todo::Exit(1))
                },
                (HubCommand::Bypass { on, off }, HubMessage::BypassPermissions { enabled }) => if on
                    || off {
                    (seq![self.unexpected()], Todo::Exit(1))
                } else {
                    (seq![notes::ActView::Print(bypass_note(enabled, false))], Todo::Return)
                },
                (HubCommand::AddRepo { .. }, HubMessage::RepoRegistered { name, .. }) => (
                    seq![
                        notes::ActView::SpinOk("repository '"@ + name@ + "' registered"@),
                        notes::ActView::Blank,
                    ],
                    Todo::Return,
                ),
                (
                    HubCommand::RemoveRepo { .. },
                    HubMessage::RepoUnregistered { name, stopped_agents, .. },
                ) => (
                    seq![
                        notes::ActView::SpinOk(
                            removed_text("repository"@, name@, stopped_agents as int),
                        ),
                        notes::ActView::Blank,
                    ],
                    Todo::Return,
                ),
                (HubCommand::StopRepo { .. }, HubMessage::RepoAgentsStopped { stopped_count, .. }) => (
                    seq![
                        notes::ActView::SpinOk(
                            if stopped_count > 0 {
                                stopped_text(stopped_count as int)
                            } else {
                                "no agents running in this repo"@
                            },
                        ),
                    ],
                    Todo::Return,
                ),
                (
                    HubCommand::ListWorktrees { .. },
                    HubMessage::WorktreeList { repo_name, worktrees },
                ) => (worktrees_listed(repo_name@, worktrees@), Todo::Return),
                (
                    HubCommand::AddWorktree { name, prompt, .. },
                    HubMessage::WorktreeAdded { path, .. },
                ) => (
                    seq![
                        notes::ActView::SpinOk("worktree '"@ + name@ + "' created at "@ + path@),
                        notes::ActView::Blank,
                    ],
                    match prompt {
                        // An agent is started in the worktree if a prompt was given
                        Some(text) => Todo::StartIn { prompt: prompt_or_none(text), path },
                        None => Todo::Return,
                    },
                ),
                (
                    HubCommand::RemoveWorktree { branch_name, .. },
                    HubMessage::WorktreeRemoved { stopped_agents, .. },
                ) => (
                    seq![
                        notes::ActView::SpinOk(
                            removed_text("worktree"@, branch_name@, stopped_agents as int),
                        ),
                        notes::ActView::Blank,
                    ],
                    Todo::Return,
                ),
                (HubCommand::WorktreeInfo { .. }, HubMessage::WorktreeInfoResult { info }) => (
                    worktree_described(info, started),
                    Todo::Return,
                ),
                _ => if self.tolerant() {
                    (Seq::empty(), Todo::Return)
                } else {
                    (seq![self.unexpected()], Todo::Exit(1))
                },
            }
        }
    }

    fn on_misfit(&self) -> (outcome: (Vec<Act>, Todo))
        ensures
            (notes::acts_view(outcome.0@), outcome.1) == (if self.tolerant() {
                (Seq::<notes::ActView>::empty(), Todo::Return)
            } else {
                (seq![self.unexpected()], Todo::Exit(1))
            }),
    {
        match self {
            HubCommand::Start { .. } | HubCommand::Attach { .. } | HubCommand::List { .. } => (
                no_acts(),
                Todo::Return,
            ),
            _ => (one_act(self.on_unexpected()), Todo::Exit(1)),
        }
    }

    fn on_answer(&self, message: HubMessage, started: &Vec<String>) -> (outcome: (Vec<Act>, Todo))
        requires
            started@.len() == agents_in(message).len(),
        ensures
            (notes::acts_view(outcome.0@), outcome.1) == self.answered(message, text::strings_view(started@)),
    {
        if let HubMessage::Error { message: text } = &message {
            return (one_act(self.on_refused(text.as_str())), Todo::Exit(1));
        }
        match self {
            HubCommand::Start { background, .. } => match message {
                HubMessage::AgentStarted {
                    id,
                    agent_binary,
                    is_worktree,
                    repo_path,
                    branch_name,
                } => if *background {
                    let mut s = joined("agent ", id.as_str());
                    s.push_str(" started");
                    (one_act(Act::SpinOk(s)), Todo::Return)
                } else {
                    (
                        no_acts(),
                        Todo::Attach(
                            Session { id, agent_binary, repo_path, branch_name, is_worktree },
                        ),
                    )
                },
                _ => self.on_misfit(),
            },
            HubCommand::Attach { .. } => match message {
                HubMessage::AgentAttached {
                    id,
                    agent_binary,
                    is_worktree,
                    repo_path,
                    branch_name,
                } => (
                    no_acts(),
                    Todo::Attach(Session { id, agent_binary, repo_path, branch_name, is_worktree }),
                ),
                _ => self.on_misfit(),
            },
            HubCommand::List { hub, .. } => match message {
                HubMessage::AgentList { agents } => (
                    list_agents(&agents, started, hub.is_some()),
                    Todo::Return,
                ),
                _ => self.on_misfit(),
            },
            HubCommand::Bypass { on, off } => match message {
                HubMessage::Done => if *on || *off {
                    (one_act(Act::Print(bypass_of(*on, true))), Todo::Return)
                } else {
                    self.on_misfit()
                },
                HubMessage::BypassPermissions { enabled } => if *on || *off {
                    self.on_misfit()
                } else {
                    (one_act(Act::Print(bypass_of(enabled, false))), Todo::Return)
                },
                _ => self.on_misfit(),
            },
            HubCommand::AddRepo { .. } => match message {
                HubMessage::RepoRegistered { name, .. } => {
                    let mut s = joined("repository '", name.as_str());
                    s.push_str("' registered");
                    self.told(s)
                },
                _ => self.on_misfit(),
            },
            HubCommand::RemoveRepo { .. } => match message {
                HubMessage::RepoUnregistered { name, stopped_agents, .. } => self.told(
                    removed_of("repository", name.as_str(), stopped_agents),
                ),
                _ => self.on_misfit(),
            },
            HubCommand::StopRepo { .. } => match message {
                HubMessage::RepoAgentsStopped { stopped_count, .. } => {
                    let s = if stopped_count > 0 {
                        stopped_of(stopped_count)
                    } else {
                        copy_of("no agents running in this repo")
                    };
                    (one_act(Act::SpinOk(s)), Todo::Return)
                },
                _ => self.on_misfit(),
            },
            HubCommand::ListWorktrees { .. } => match message {
                HubMessage::WorktreeList { repo_name, worktrees } => (
                    list_worktrees(repo_name.as_str(), &worktrees),
                    Todo::Return,
                ),
                _ => self.on_misfit(),
            },
            HubCommand::AddWorktree { name, prompt, .. } => match message {
                HubMessage::WorktreeAdded { path, .. } => {
                    let mut s = joined("worktree '", name.as_str());
                    s.push_str("' created at ");
                    s.push_str(path.as_str());
                    let (acts, _done) = self.told(s);
                    let todo = match prompt {
                        Some(text) => Todo::StartIn {
                            prompt: if text.as_str().is_empty() {
                                None
                            } else {
                                Some(text.clone())
                            },
                            path,
                        },
                        None => Todo::Return,
                    };
                    (acts, todo)
                },
                _ => self.on_misfit(),
            },
            HubCommand::RemoveWorktree { branch_name, .. } => match message {
                HubMessage::WorktreeRemoved { stopped_agents, .. } => self.told(
                    removed_of("worktree", branch_name.as_str(), stopped_agents),
                ),
                _ => self.on_misfit(),
            },
            HubCommand::WorktreeInfo { .. } => match message {
                HubMessage::WorktreeInfoResult { info } => (
                    describe_worktree(&info, started),
                    Todo::Return,
                ),
                _ => self.on_misfit(),
            },
        }
    }

    /// The spinner ends with a message, and an empty line follows.
    fn told(&self, message: String) -> (outcome: (Vec<Act>, Todo))
        ensures
            (notes::acts_view(outcome.0@), outcome.1) == (
                seq![notes::ActView::SpinOk(message@), notes::ActView::Blank],
                Todo::Return,
            ),
    {
        let mut acts = one_act(Act::SpinOk(message));
        push_act(&mut acts, Act::Blank);
        assert(notes::acts_view(acts@) =~= seq![notes::ActView::SpinOk(message@), notes::ActView::Blank]);
        (acts, Todo::Return)
    }
}

/// Whether the answer to a question is yes.
pub fn confirmed(input: &str) -> (yes: bool)
    ensures
        yes == (text::trim(input@) == "y"@ || text::trim(input@) == "Y"@),
{
    let answer = trimmed_text(input);
    text_eq(answer.as_str(), "y") || text_eq(answer.as_str(), "Y")
}

// ── Running a command ──────────────────────────────────────────────

/// The worktree that is to be cleaned up after a session: that of an agent which has gone.
pub open spec fn to_clean_up(session: Session, end: SessionEnd) -> Option<(String, String)> {
    if end is AgentExited && session.is_worktree {
        match (session.repo_path, session.branch_name) {
            (Some(repo), Some(branch)) => Some((repo, branch)),
            _ => None,
        }
    } else {
        None
    }
}

impl CommandRun {
    /// The next phase, what is shown and what to do, for each event in each phase.
    pub open spec fn next(self, event: CommandEvent) -> (CommandPhase, Seq<notes::ActView>, Todo) {
        let stay = (self.phase, Seq::<notes::ActView>::empty(), Todo::Nothing);
        match (self.phase, event) {
            (CommandPhase::Ready, CommandEvent::Begin) => (
                CommandPhase::Connecting,
                self.command.opening(),
                Todo::Connect { may_start: !(self.command is List) },
            ),
            (CommandPhase::Connecting, CommandEvent::Connected) => (
                CommandPhase::Sending,
                self.command.connected(),
                Todo::Send(self.command.request()),
            ),
            (CommandPhase::Connecting, CommandEvent::ConnectFailed(e)) => {
                let (acts, todo) = self.command.unreachable(e@);
                (CommandPhase::Over, acts, todo)
            },
            (CommandPhase::Sending, CommandEvent::Sent) => (
                CommandPhase::Receiving,
                Seq::empty(),
                Todo::Receive,
            ),
            (CommandPhase::Sending, CommandEvent::SendFailed(e)) => (
                CommandPhase::Over,
                seq![self.command.not_sent(e@)],
                Todo::Exit(1),
            ),
            (CommandPhase::Receiving, CommandEvent::Received { message, started }) => {
                let (acts, todo) = self.command.answered(message, text::strings_view(started@));
                (
                    match todo {
                        Todo::Attach(session) => CommandPhase::InSession(session),
                        Todo::StartIn { .. } => CommandPhase::StartingIn,
                        _ => CommandPhase::Over,
                    },
                    acts,
                    todo,
                )
            },
            (CommandPhase::Receiving, CommandEvent::ReceiveFailed(e)) => (
                CommandPhase::Over,
                seq![self.command.no_answer(e@)],
                Todo::Exit(1),
            ),
            (CommandPhase::InSession(session), CommandEvent::SessionEnded(end)) => match end {
                SessionEnd::Failed(e) => (
                    CommandPhase::Over,
                    seq![notes::ActView::Print(notes::complaint("session error: "@ + e@, true, true))],
                    Todo::Exit(1),
                ),
                _ => match to_clean_up(session, end) {
                    Some((repo_path, branch_name)) => (
                        CommandPhase::CleaningUp,
                        Seq::empty(),
                        Todo::CleanUp { repo_path, branch_name },
                    ),
                    None => (CommandPhase::Over, Seq::empty(), Todo::Exit(0)),
                },
            },
            (CommandPhase::CleaningUp, CommandEvent::CleanedUp) => (
                CommandPhase::Over,
                Seq::empty(),
                Todo::Exit(0),
            ),
            (CommandPhase::StartingIn, CommandEvent::StartedIn) => (
                CommandPhase::Over,
                seq![notes::ActView::Blank],
                Todo::Return,
            ),
            _ => stay,
        }
    }

    pub fn new(command: HubCommand) -> (run: Self)
        ensures
            run == (CommandRun { command, phase: CommandPhase::Ready }),
    {
        CommandRun { command, phase: CommandPhase::Ready }
    }

    /// One step of the command.
    pub fn step(&mut self, event: CommandEvent) -> (outcome: (Vec<Act>, Todo))
        requires
            event matches CommandEvent::Received { message, started } ==> started@.len()
                == agents_in(message).len(),
        ensures
            final(self).command == old(self).command,
            (final(self).phase, notes::acts_view(outcome.0@), outcome.1) == old(self).next(event),
    {
        match event {
            CommandEvent::Begin => {
                if let CommandPhase::Ready = self.phase {
                    self.phase = CommandPhase::Connecting;
                    let may_start = match &self.command {
                        HubCommand::List { .. } => false,
                        _ => true,
                    };
                    return (self.command.open(), Todo::Connect { may_start });
                }
            },
            CommandEvent::Connected => {
                if let CommandPhase::Connecting = self.phase {
                    self.phase = CommandPhase::Sending;
                    let acts = match &self.command {
                        HubCommand::Bypass { .. } => one_act(Act::SpinOk(copy_of("connected"))),
                        _ => no_acts(),
                    };
                    return (acts, Todo::Send(self.command.message()));
                }
            },
            CommandEvent::ConnectFailed(e) => {
                if let CommandPhase::Connecting = self.phase {
                    self.phase = CommandPhase::Over;
                    return self.command.on_unreachable(e.as_str());
                }
            },
            CommandEvent::Sent => {
                if let CommandPhase::Sending = self.phase {
                    self.phase = CommandPhase::Receiving;
                    return (no_acts(), Todo::Receive);
                }
            },
            CommandEvent::SendFailed(e) => {
                if let CommandPhase::Sending = self.phase {
                    self.phase = CommandPhase::Over;
                    return (one_act(self.command.on_not_sent(e.as_str())), Todo::Exit(1));
                }
            },
            CommandEvent::Received { message, started } => {
                if let CommandPhase::Receiving = self.phase {
                    let (acts, todo) = self.command.on_answer(message, &started);
                    self.phase = match &todo {
                        Todo::Attach(session) => CommandPhase::InSession(copy_session(session)),
                        Todo::StartIn { .. } => CommandPhase::StartingIn,
                        _ => CommandPhase::Over,
                    };
                    return (acts, todo);
                }
            },
            CommandEvent::ReceiveFailed(e) => {
                if let CommandPhase::Receiving = self.phase {
                    self.phase = CommandPhase::Over;
                    return (one_act(self.command.on_no_answer(e.as_str())), Todo::Exit(1));
                }
            },
            CommandEvent::SessionEnded(end) => {
                if let CommandPhase::InSession(session) = &self.phase {
                    let session = copy_session(session);
                    return self.end_session(session, end);
                }
            },
            CommandEvent::CleanedUp => {
                if let CommandPhase::CleaningUp = self.phase {
                    self.phase = CommandPhase::Over;
                    return (no_acts(), Todo::Exit(0));
                }
            },
            CommandEvent::StartedIn => {
                if let CommandPhase::StartingIn = self.phase {
                    self.phase = CommandPhase::Over;
                    return (one_act(Act::Blank), Todo::Return);
                }
            },
        }
        (no_acts(), Todo::Nothing)
    }

    fn end_session(&mut self, session: Session, end: SessionEnd) -> (outcome: (Vec<Act>, Todo))
        requires
            old(self).phase == CommandPhase::InSession(session),
        ensures
            final(self).command == old(self).command,
            (final(self).phase, notes::acts_view(outcome.0@), outcome.1) == old(self).next(
                CommandEvent::SessionEnded(end),
            ),
    {
        match end {
            SessionEnd::Failed(e) => {
                self.phase = CommandPhase::Over;
                let text = joined("session error: ", e.as_str());
                (one_act(Act::Print(complaint_of(text.as_str(), true, true))), Todo::Exit(1))
            },
            SessionEnd::AgentExited => {
                let Session { repo_path, branch_name, is_worktree, .. } = session;
                if is_worktree {
                    if let Some(repo_path) = repo_path {
                        if let Some(branch_name) = branch_name {
                            self.phase = CommandPhase::CleaningUp;
                            return (no_acts(), Todo::CleanUp { repo_path, branch_name });
                        }
                    }
                }
                self.phase = CommandPhase::Over;
                (no_acts(), Todo::Exit(0))
            },
            SessionEnd::Left => {
                self.phase = CommandPhase::Over;
                (no_acts(), Todo::Exit(0))
            },
        }
    }
}

fn copy_session(s: &Session) -> (t: Session)
    ensures
        t == *s,
{
    Session {
        id: s.id.clone(),
        agent_binary: s.agent_binary.clone(),
        repo_path: copy_option(&s.repo_path),
        branch_name: copy_option(&s.branch_name),
        is_worktree: s.is_worktree,
    }
}

// ── Laws ───────────────────────────────────────────────────────────

/// A command that is over shows nothing and does nothing more.
pub proof fn finished_command_is_silent(run: CommandRun, event: CommandEvent)
    requires
        run.phase == CommandPhase::Over,
    ensures
        run.next(event) == (run.phase, Seq::<notes::ActView>::empty(), Todo::Nothing),
{
}

/// The hub is asked exactly what the command stands for, and only once there is a connection.
pub proof fn request_follows_connection(run: CommandRun, event: CommandEvent)
    ensures
        run.next(event).2 matches Todo::Send(message) ==> run.phase == CommandPhase::Connecting
            && event == CommandEvent::Connected && message == run.command.request(),
{
}

/// A command that the hub refuses fails, and says why.
pub proof fn refusal_is_reported(run: CommandRun, message: HubMessage, started: Vec<String>)
    requires
        run.phase == CommandPhase::Receiving,
        message is Error,
    ensures
        ({
            let (phase, acts, todo) = run.next(CommandEvent::Received { message, started });
            &&& phase == CommandPhase::Over
            &&& acts == seq![run.command.refused(message->Error_message@)]
            &&& todo == Todo::Exit(1)
        }),
{
}

/// Requests about worktrees name the repository or the directory, and never both.
pub proof fn worktree_requests_name_one_place(working_dir: String, repo_name: Option<String>)
    ensures
        dir_unless_named(working_dir, repo_name) is Some <==> repo_name is None,
{
}

/// A worktree is offered for cleaning up only after its agent has gone.
pub proof fn only_gone_agents_are_cleaned_up(session: Session, end: SessionEnd)
    ensures
        to_clean_up(session, end) is Some ==> end is AgentExited && session.is_worktree,
{
}

/// What the hub is asked is what the user said. An agent is started with the prompt, the program,
/// the directory, the hub and the permissions that were given, on a screen of the given width and
/// of all rows but the one for the status bar; nothing is granted that was not asked for.
pub proof fn starts_ask_for_what_was_said(command: HubCommand)
    requires
        command is Start,
        command->Start_rows >= 2,
    ensures
        ({
            let m = command.request();
            &&& m is StartAgent
            &&& m->StartAgent_prompt == command->Start_prompt
            &&& m->StartAgent_agent_binary == command->Start_agent_binary
            &&& m->StartAgent_working_dir == command->Start_working_dir
            &&& m->StartAgent_hub == command->Start_hub
            &&& m->StartAgent_accept_edits == command->Start_accept_edits
            &&& !m->StartAgent_plan_mode && !m->StartAgent_allow_bypass
            &&& m->StartAgent_cols == command->Start_cols
            &&& command->Start_background ==> m->StartAgent_rows == command->Start_rows
            &&& !command->Start_background ==> m->StartAgent_rows + 1 == command->Start_rows
        }),
{
}

/// A worktree is removed as the user said: its branch is deleted if and only if that was asked
/// for, and force is used if and only if that was asked for.
pub proof fn removals_ask_for_what_was_said(command: HubCommand)
    requires
        command is RemoveWorktree,
    ensures
        ({
            let m = command.request();
            &&& m is RemoveWorktree
            &&& m->RemoveWorktree_delete_local_branch == command->RemoveWorktree_delete_local
            &&& m->RemoveWorktree_force == command->RemoveWorktree_force
            &&& m->RemoveWorktree_branch_name == command->RemoveWorktree_branch_name
            &&& m->RemoveWorktree_repo_name == command->RemoveWorktree_repo_name
            &&& match command->RemoveWorktree_repo_name {
                None => m->RemoveWorktree_working_dir == Some(command->RemoveWorktree_working_dir),
                Some(_) => m->RemoveWorktree_working_dir is None,
            }
        }),
{
}

/// A worktree is made as the user said: for the branch of that name, from the base that was named,
/// and from a branch that exists if and only if that was asked for.
pub proof fn new_worktrees_ask_for_what_was_said(command: HubCommand)
    requires
        command is AddWorktree,
    ensures
        ({
            let m = command.request();
            &&& m is AddWorktree
            &&& m->AddWorktree_branch_name == command->AddWorktree_name
            &&& m->AddWorktree_base_branch == command->AddWorktree_base_branch
            &&& m->AddWorktree_checkout_existing == command->AddWorktree_checkout
            &&& m->AddWorktree_repo_name == command->AddWorktree_repo_name
            &&& match command->AddWorktree_repo_name {
                None => m->AddWorktree_working_dir == Some(command->AddWorktree_working_dir),
                Some(_) => m->AddWorktree_working_dir is None,
            }
        }),
{
}

/// Every other command asks for the thing of its name, of the agent, the repository or the
/// worktree that was meant.
pub proof fn other_commands_ask_for_what_was_said(command: HubCommand)
    ensures
        ({
            let m = command.request();
            &&& command is Attach ==> m is AttachAgent && m->AttachAgent_id == command->Attach_id
            &&& command is List ==> m is ListAgents && m->ListAgents_hub == command->List_hub
                && m->ListAgents_batch == command->List_batch
            &&& command is AddRepo ==> m is RegisterRepo && m->RegisterRepo_path
                == command->AddRepo_working_dir
            &&& command is RemoveRepo ==> m is UnregisterRepo && m->UnregisterRepo_path
                == command->RemoveRepo_working_dir
            &&& command is StopRepo ==> m is StopRepoAgents && m->StopRepoAgents_path
                == command->StopRepo_working_dir
            &&& command is ListWorktrees ==> {
                &&& m is ListWorktrees
                &&& m->ListWorktrees_repo_name == command->ListWorktrees_repo_name
                &&& match command->ListWorktrees_repo_name {
                    None => m->ListWorktrees_working_dir == Some(command->ListWorktrees_working_dir),
                    Some(_) => m->ListWorktrees_working_dir is None,
                }
            }
            &&& command is WorktreeInfo ==> {
                &&& m is GetWorktreeInfo
                &&& m->GetWorktreeInfo_branch_name == command->WorktreeInfo_name
                &&& m->GetWorktreeInfo_repo_name == command->WorktreeInfo_repo_name
                &&& match command->WorktreeInfo_repo_name {
                    None => m->GetWorktreeInfo_working_dir == Some(
                        command->WorktreeInfo_working_dir,
                    ),
                    Some(_) => m->GetWorktreeInfo_working_dir is None,
                }
            }
            &&& command is Bypass && command->on && !command->off ==> m is SetBypassPermissions
                && m->SetBypassPermissions_enabled
            &&& command is Bypass && !command->on && command->off ==> m is SetBypassPermissions
                && !m->SetBypassPermissions_enabled
            &&& command is Bypass && !command->on && !command->off ==> m is GetBypassPermissions
        }),
{
}

/// An agent that was started is attached to, as the hub describes it, unless it runs in the
/// background; an agent that was asked for is attached to in any case.
pub proof fn agents_are_attached_to(
    command: HubCommand,
    session: Session,
    started: Seq<Seq<char>>,
)
    ensures
        ({
            let message = HubMessage::AgentStarted {
                id: session.id,
                agent_binary: session.agent_binary,
                is_worktree: session.is_worktree,
                repo_path: session.repo_path,
                branch_name: session.branch_name,
            };
            command matches HubCommand::Start { background, .. } ==> (if background {
                command.answered(message, started).1 == Todo::Return
            } else {
                command.answered(message, started).1 == Todo::Attach(session)
            })
        }),
        ({
            let message = HubMessage::AgentAttached {
                id: session.id,
                agent_binary: session.agent_binary,
                is_worktree: session.is_worktree,
                repo_path: session.repo_path,
                branch_name: session.branch_name,
            };
            command is Attach ==> command.answered(message, started).1 == Todo::Attach(session)
        }),
{
}

/// In a worktree that was made an agent is started if and only if a prompt was given, even an
/// empty one: at the place that the hub made, and with that prompt.
pub proof fn prompts_start_agents_in_new_worktrees(
    command: HubCommand,
    branch_name: String,
    path: String,
    started: Seq<Seq<char>>,
)
    requires
        command is AddWorktree,
    ensures
        ({
            let todo = command.answered(HubMessage::WorktreeAdded { branch_name, path }, started).1;
            match command->AddWorktree_prompt {
                None => todo == Todo::Return,
                Some(p) => todo matches Todo::StartIn { prompt, path: place } && place == path && (
                if p@.len() > 0 {
                    prompt == Some(p)
                } else {
                    prompt is None
                }),
            }
        }),
{
}

/// The worktree that is offered for cleaning up is that of the agent which has gone.
pub proof fn own_worktrees_are_cleaned_up(session: Session)
    ensures
        session.is_worktree && session.repo_path is Some && session.branch_name is Some
            ==> to_clean_up(session, SessionEnd::AgentExited) == Some(
            (session.repo_path->0, session.branch_name->0),
        ),
        to_clean_up(session, SessionEnd::Left) is None,
{
}

/// Only a list of agents does without a hub: any other command may have it started, and fails
/// where there is no way to reach it.
pub proof fn hubs_are_started_for_all_but_lists(command: HubCommand, e: String)
    ensures
        ({
            let run = CommandRun { command, phase: CommandPhase::Ready };
            run.next(CommandEvent::Begin).2 == (Todo::Connect { may_start: !(command is List) })
        }),
        ({
            let run = CommandRun { command, phase: CommandPhase::Connecting };
            let todo = run.next(CommandEvent::ConnectFailed(e)).2;
            if command is List {
                todo == Todo::Return
            } else {
                todo matches Todo::Exit(code) && code != 0
            }
        }),
{
}

/// A session that went wrong makes the command fail, any other ends it well.
pub proof fn failed_sessions_fail(command: HubCommand, session: Session, e: String)
    ensures
        ({
            let run = CommandRun { command, phase: CommandPhase::InSession(session) };
            let failed = run.next(CommandEvent::SessionEnded(SessionEnd::Failed(e))).2;
            &&& failed is Exit && failed->Exit_0 != 0
            &&& run.next(CommandEvent::SessionEnded(SessionEnd::Left)).2 == Todo::Exit(0)
        }),
        ({
            let run = CommandRun { command, phase: CommandPhase::CleaningUp };
            run.next(CommandEvent::CleanedUp).2 == Todo::Exit(0)
        }),
{
}

proof fn lemma_grouped_rows(
    agents: Seq<AgentInfo>,
    started: Seq<Seq<char>>,
    order: Seq<usize>,
    k: int,
)
    requires
        0 <= k < order.len(),
    ensures
        grouped_rows(agents, started, order).contains(
            notes::ActView::Print(agent_row_note(agents[order[k] as int], started[order[k] as int])),
        ),
    decreases order.len(),
{
    let rows = grouped_rows(agents, started, order);
    let row = notes::ActView::Print(
        agent_row_note(agents[order[k] as int], started[order[k] as int]),
    );
    if k == order.len() - 1 {
        assert(rows[rows.len() - 1] == row);
    } else {
        let before = order.drop_last();
        lemma_grouped_rows(agents, started, before, k);
        let first = grouped_rows(agents, started, before);
        let j = choose|j: int| 0 <= j < first.len() && first[j] == row;
        assert(rows[j] == row);
    }
}

/// Every agent that the hub lists is shown.
pub proof fn all_agents_are_listed(
    agents: Seq<AgentInfo>,
    started: Seq<Seq<char>>,
    one_hub: bool,
    i: int,
)
    requires
        0 <= i < agents.len() <= usize::MAX,
    ensures
        agents_listed(agents, started, one_hub).contains(
            notes::ActView::Print(agent_row_note(agents[i], started[i])),
        ),
{
    broadcast use vstd::seq_lib::group_to_multiset_ensures;

    let row = notes::ActView::Print(agent_row_note(agents[i], started[i]));
    let shown = agents_listed(agents, started, one_hub);
    if one_hub {
        assert(shown[i + 2] == row);
    } else {
        let all = overview::first_indices(agents.len());
        let order = agent_order(agents);
        crate::sorting::sorting_permutes_into_order(all, agent_keys(agents));
        assert(all[i] == i as usize);
        assert(all.contains(i as usize));
        assert(all.to_multiset().count(i as usize) > 0);
        assert(order.to_multiset().count(i as usize) > 0);
        assert(order.contains(i as usize));
        let k = choose|k: int| 0 <= k < order.len() && order[k] == i as usize;
        lemma_grouped_rows(agents, started, order, k);
        let rows = grouped_rows(agents, started, order);
        let j = choose|j: int| 0 <= j < rows.len() && rows[j] == row;
        assert(shown[j + 1] == row);
    }
}

/// What a row of the table says of an agent: its id, its program, its repository, its branch, its
/// start, its batch and who is attached, each where the heading of that name is.
pub proof fn rows_say_what_their_headings_name(agent: AgentInfo, started: Seq<char>)
    ensures
        ({
            let row = agent_row_note(agent, started).pieces;
            let head = agent_header_note().pieces[0].text;
            let dash = seq!['—'];
            &&& row.len() == 15
            &&& row[0].text.take(agent.id@.len() as int) == agent.id@
            &&& head.take(8) == formatting::column(seq!['I', 'D'], 8)
            &&& row[2].text.take(agent.agent_binary@.len() as int) == agent.agent_binary@
            &&& head.subrange(9, 21) == formatting::column("AGENT"@, 12)
            &&& agent.branch_name is Some ==> row[6].text.take(
                agent.branch_name->0@.len() as int,
            ) == agent.branch_name->0@
            &&& agent.branch_name is None ==> row[6].text.take(1) == dash
            &&& head.subrange(39, 59) == formatting::column("BRANCH"@, 20)
            &&& row[10].text.take(started.len() as int) == started
            &&& head.subrange(71, 85) == formatting::column("STARTED"@, 14)
            &&& agent.batch_title is Some ==> row[12].text.take(
                agent.batch_title->0@.len() as int,
            ) == agent.batch_title->0@
            &&& head.subrange(86, 98) == formatting::column("BATCH"@, 12)
        }),
{
    reveal_strlit("ID");
    reveal_strlit(" ");
    reveal_strlit("AGENT");
    reveal_strlit("REPO");
    reveal_strlit("BRANCH");
    reveal_strlit("STATUS");
    reveal_strlit("STARTED");
    reveal_strlit("BATCH");
    reveal_strlit("—");
    assert("ID"@ =~= seq!['I', 'D']);
    assert("—"@ =~= seq!['—']);
    crate::formatting::column_holds_its_text(agent.id@, 8);
    crate::formatting::column_holds_its_text(agent.agent_binary@, 12);
    crate::formatting::column_holds_its_text(or_dash(overview::opt_view(agent.branch_name)), 20);
    crate::formatting::column_holds_its_text(started, 14);
    crate::formatting::column_holds_its_text(or_dash(overview::opt_view(agent.batch_title)), 12);
    let head = agent_header_note().pieces[0].text;
    let c1 = formatting::column("ID"@, 8);
    let c2 = formatting::column("AGENT"@, 12);
    let c3 = formatting::column("REPO"@, 16);
    let c4 = formatting::column("BRANCH"@, 20);
    let c5 = formatting::column("STATUS"@, 10);
    let c6 = formatting::column("STARTED"@, 14);
    let c7 = formatting::column("BATCH"@, 12);
    assert(c1.len() == 8 && c2.len() == 12 && c3.len() == 16 && c4.len() == 20 && c5.len() == 10
        && c6.len() == 14 && c7.len() == 12);
    assert(head.take(8) =~= c1);
    assert(head.subrange(9, 21) =~= c2);
    assert(head.subrange(39, 59) =~= c4);
    assert(head.subrange(71, 85) =~= c6);
    assert(head.subrange(86, 98) =~= c7);
}

/// Every worktree that the hub lists is shown with its branch, and dirty ones are told from clean
/// ones.
pub proof fn all_worktrees_are_listed(name: Seq<char>, worktrees: Seq<WorktreeEntry>, i: int)
    requires
        0 <= i < worktrees.len(),
    ensures
        ({
            let row = worktree_row_note(worktrees[i]);
            &&& worktrees_listed(name, worktrees).contains(notes::ActView::Print(row))
            &&& row.pieces[2].text.take(worktrees[i].branch_name@.len() as int)
                == worktrees[i].branch_name@
            &&& worktrees[i].is_dirty ==> row.pieces[6].text == "dirty"@
            &&& !worktrees[i].is_dirty ==> row.pieces[6].text == "clean"@
            &&& row.pieces[0].text == "●"@ <==> worktrees[i].is_main
        }),
{
    reveal_strlit("●");
    reveal_strlit(" ");
    assert("●"@[0] != " "@[0]);
    crate::formatting::column_holds_its_text(worktrees[i].branch_name@, 24);
    let shown = worktrees_listed(name, worktrees);
    assert(shown[5 + i] == notes::ActView::Print(worktree_row_note(worktrees[i])));
}

/// What is said of a single worktree names its branch, its place, its state and every agent in it.
pub proof fn worktrees_are_described(info: WorktreeEntry, started: Seq<Seq<char>>, i: int)
    requires
        0 <= i < info.active_agents@.len(),
    ensures
        ({
            let shown = worktree_described(info, started);
            let value = |k: int| shown[k]->Print_0.pieces[2].text;
            &&& value(2) == info.branch_name@
            &&& value(3) == info.path@
            &&& info.is_dirty ==> value(4) == "dirty"@
            &&& !info.is_dirty ==> value(4) == "clean"@
            &&& shown[6 + i]->Print_0.pieces[1].text == info.active_agents@[i].id@
            &&& shown[6 + i]->Print_0.pieces[3].text == info.active_agents@[i].agent_binary@
            &&& shown[6 + i]->Print_0.pieces[5].text == started[i]
        }),
{
    let shown = worktree_described(info, started);
    assert(shown[6 + i] == notes::ActView::Print(
        inner_agent_note(info.active_agents@[i], started[i]),
    ));
}

/// What is said of the permission bypass is what it is.
pub proof fn bypass_is_told_as_it_is(changed: bool)
    ensures
        bypass_note(true, changed).pieces[1].text == "on"@,
        bypass_note(false, changed).pieces[1].text == "off"@,
{
}

/// The directory that was asked for goes before the current one.
pub proof fn asked_directories_go_first(asked: Seq<char>, current: Option<Seq<char>>)
    ensures
        chosen_dir(Some(asked), current) == asked,
        current is Some ==> chosen_dir(None, current) == current->0,
{
}

/// What an act says in words.
pub open spec fn words_of(act: notes::ActView) -> Seq<char> {
    match act {
        notes::ActView::Print(note) => note.pieces[0].text,
        notes::ActView::Spin(s) => s,
        notes::ActView::SpinOk(s) => s,
        notes::ActView::SpinFailed(s) => s,
        notes::ActView::Blank => Seq::empty(),
    }
}

/// A hub that cannot be reached is told of with the reason and ends the command with a failure,
/// save that a list says no more than that there is none.
pub proof fn unreachable_hubs_are_told_of(command: HubCommand, e: Seq<char>)
    ensures
        ({
            let (acts, todo) = command.unreachable(e);
            &&& acts.len() == 1
            &&& command is List ==> todo == Todo::Return
            &&& !(command is List) ==> todo == Todo::Exit(1)
            &&& !(command is List) ==> words_of(acts[0]) == "failed to connect to hub: "@ + e
            &&& command is Attach ==> acts[0] is Print && acts[0]->Print_0.to_stderr
            &&& command is AddRepo ==> acts[0] is SpinFailed
        }),
{
}

/// A request that cannot be sent, and an answer that does not come, are told of with the reason,
/// which comes last.
pub proof fn reasons_come_last(command: HubCommand, e: Seq<char>)
    ensures
        ({
            let unsent = words_of(command.not_sent(e));
            &&& unsent.len() >= e.len()
            &&& unsent.skip(unsent.len() - e.len()) == e
        }),
        ({
            let unanswered = words_of(command.no_answer(e));
            command is Start || command is Attach || command is List || command is RemoveRepo
                || command is StopRepo ==> {
                &&& unanswered.len() >= e.len()
                &&& unanswered.skip(unanswered.len() - e.len()) == e
            }
        }),
        !(command is Start || command is Attach || command is List || command is RemoveRepo
            || command is StopRepo) ==> command.no_answer(e) == command.unexpected(),
{
    let unsent = words_of(command.not_sent(e));
    assert(unsent.skip(unsent.len() - e.len()) =~= e);
    let unanswered = words_of(command.no_answer(e));
    if command is Start || command is Attach || command is List || command is RemoveRepo
        || command is StopRepo {
        assert(unanswered.skip(unanswered.len() - e.len()) =~= e);
    }
}

/// An agent in the background has all rows; one that is attached to leaves one for the bar
/// below it, and has at least one.
pub proof fn attached_agents_leave_a_row(rows: u16)
    ensures
        agent_rows(rows, true) == rows,
        rows >= 2 ==> agent_rows(rows, false) + 1 == rows,
        rows < 2 ==> agent_rows(rows, false) == 1,
{
}

/// What was removed is named, and the agents that were stopped for it are counted, where there
/// were any.
pub proof fn removals_name_and_count(what: Seq<char>, name: Seq<char>, stopped: int)
    requires
        stopped >= 0,
    ensures
        ({
            let s = removed_text(what, name, stopped);
            let at = what.len() + 2;
            let digits = text::decimal(stopped as nat);
            let after = at + name.len() + 11;
            &&& s.take(what.len() as int) == what
            &&& s.subrange(at as int, (at + name.len()) as int) == name
            &&& stopped == 0 ==> s.len() == at + name.len() + 9
            &&& stopped > 0 ==> s.subrange(after as int, (after + digits.len()) as int) == digits
        }),
        stopped_text(stopped).take(text::decimal(stopped as nat).len() as int) == text::decimal(
            stopped as nat,
        ),
{
    reveal_strlit(" '");
    reveal_strlit("' removed");
    reveal_strlit(" (");
    let s = removed_text(what, name, stopped);
    let at = (what.len() + 2) as int;
    let digits = text::decimal(stopped as nat);
    let after = at + name.len() + 11;
    assert(s.take(what.len() as int) =~= what);
    assert(s.subrange(at, at + name.len()) =~= name);
    assert(stopped_text(stopped).take(digits.len() as int) =~= digits);
    if stopped > 0 {
        assert(stopped_text(stopped).len() >= digits.len());
        assert(s.subrange(after, after + digits.len()) =~= digits);
    }
}

/// States are told by the right word, and what is not known by a dash.
pub proof fn states_have_their_words(flag: bool, s: Seq<char>)
    ensures
        on_off(flag) == (if flag {
            seq!['o', 'n']
        } else {
            seq!['o', 'f', 'f']
        }),
        dirt(flag)[0] == 'd' <==> flag,
        or_dash(Some(s)) == s,
        or_dash(None) == seq!['—'],
        repo_or_dash(Some(s)) == overview_view::display_name(s),
        repo_or_dash(None) == seq!['—'],
{
    reveal_strlit("on");
    reveal_strlit("off");
    reveal_strlit("dirty");
    reveal_strlit("clean");
    reveal_strlit("—");
    assert("on"@ =~= seq!['o', 'n']);
    assert("off"@ =~= seq!['o', 'f', 'f']);
    assert("—"@ =~= seq!['—']);
}

/// An agent in a worktree is told with its id, what it runs, its start and its terminals, in
/// this order.
pub proof fn inner_agents_are_told(agent: AgentInfo, started: Seq<char>)
    ensures
        ({
            let note = inner_agent_note(agent, started);
            &&& note.pieces.len() == 8
            &&& note.pieces[1].text == agent.id@
            &&& note.pieces[3].text == agent.agent_binary@
            &&& note.pieces[5].text == started
            &&& note.pieces[7].text == formatting::attached_text(agent.attached_clients as int)
            &&& !note.to_stderr
        }),
{
}

/// A field is told with its label before its value.
pub proof fn fields_have_their_label_first(label: Seq<char>, gap: Seq<char>, ink: Ink, value: Seq<char>)
    ensures
        field_note(label, gap, ink, value).pieces[0].text == label,
        field_note(label, gap, ink, value).pieces[1].text == gap,
        field_note(label, gap, ink, value).pieces[2].text == value,
        field_note(label, gap, ink, value).pieces[2].ink == ink,
{
}

/// Agents are listed hub by hub: a hub's name and a heading stand before its first agent, with
/// a blank line before them unless they come first, and every agent has its row.
pub proof fn hubs_head_their_agents(
    agents: Seq<AgentInfo>,
    started: Seq<Seq<char>>,
    order: Seq<usize>,
    next: usize,
)
    ensures
        ({
            let before = grouped_rows(agents, started, order);
            let after = grouped_rows(agents, started, order.push(next));
            let agent = agents[next as int];
            let row = notes::ActView::Print(agent_row_note(agent, started[next as int]));
            let same = order.len() > 0 && agents[order.last() as int].hub@ == agent.hub@;
            let n = before.len();
            &&& after.take(n as int) == before
            &&& after.last() == row
            &&& same ==> after.len() == n + 1
            &&& !same && order.len() == 0 ==> after.len() == n + 3
            &&& !same && order.len() > 0 ==> after.len() == n + 4 && after[n as int]
                == notes::ActView::Blank
            &&& !same ==> words_of(after[after.len() - 3]) == agent.hub@
            &&& !same ==> after[after.len() - 2] == notes::ActView::Print(agent_header_note())
        }),
{
    assert(order.push(next).drop_last() =~= order);
    let before = grouped_rows(agents, started, order);
    let after = grouped_rows(agents, started, order.push(next));
    assert(after.take(before.len() as int) =~= before);
}

/// A refusal is told in the hub's own words, which come last.
pub proof fn refusals_are_told_in_the_hubs_words(command: HubCommand, message: Seq<char>)
    requires
        !(command is Bypass) || command->on || command->off,
    ensures
        ({
            let told = words_of(command.refused(message));
            &&& told.len() >= message.len()
            &&& told.skip(told.len() - message.len()) == message
            &&& !(command is Bypass) ==> told == message
        }),
{
    let told = words_of(command.refused(message));
    assert(told.skip(told.len() - message.len()) =~= message);
}

/// An agent that runs in the background is told of by its id, and a repository that was added
/// by its name.
pub proof fn starts_and_additions_are_named(
    command: HubCommand,
    message: HubMessage,
    started: Seq<Seq<char>>,
)
    ensures
        ({
            let (acts, todo) = command.answered(message, started);
            let told = words_of(acts[0]);
            let id = message->AgentStarted_id@;
            command is Start && command->background && message is AgentStarted ==> {
                &&& acts.len() == 1 && acts[0] is SpinOk
                &&& told.len() == 14 + id.len()
                &&& told.subrange(6, 6 + id.len() as int) == id
                &&& todo == Todo::Return
            }
        }),
        ({
            let (acts, todo) = command.answered(message, started);
            let told = words_of(acts[0]);
            let name = message->RepoRegistered_name@;
            command is AddRepo && message is RepoRegistered ==> {
                &&& acts[0] is SpinOk
                &&& told.len() == 12 + name.len() + 12
                &&& told.subrange(12, 12 + name.len() as int) == name
                &&& todo == Todo::Return
            }
        }),
{
    reveal_strlit("agent ");
    reveal_strlit(" started");
    reveal_strlit("repository '");
    reveal_strlit("' registered");
    let (acts, todo) = command.answered(message, started);
    let told = words_of(acts[0]);
    if command is Start && command->background && message is AgentStarted {
        let id = message->AgentStarted_id@;
        assert(told.subrange(6, 6 + id.len() as int) =~= id);
    }
    if command is AddRepo && message is RepoRegistered {
        let name = message->RepoRegistered_name@;
        assert(told.subrange(12, 12 + name.len() as int) =~= name);
    }
}

/// What was removed is told by its name, with how many agents were stopped; stopping a
/// repository's agents tells how many there were, or that there were none.
pub proof fn removals_and_stops_are_counted(
    command: HubCommand,
    message: HubMessage,
    started: Seq<Seq<char>>,
)
    ensures
        ({
            let (acts, todo) = command.answered(message, started);
            let told = words_of(acts[0]);
            &&& command is RemoveRepo && message is RepoUnregistered ==> acts[0] is SpinOk && told
                == removed_text(
                "repository"@,
                message->RepoUnregistered_name@,
                message->RepoUnregistered_stopped_agents as int,
            ) && todo == Todo::Return
            &&& command is RemoveWorktree && message is WorktreeRemoved ==> acts[0] is SpinOk
                && told == removed_text(
                "worktree"@,
                command->RemoveWorktree_branch_name@,
                message->WorktreeRemoved_stopped_agents as int,
            ) && todo == Todo::Return
            &&& command is StopRepo && message is RepoAgentsStopped ==> {
                &&& acts.len() == 1 && acts[0] is SpinOk
                &&& message->stopped_count > 0 ==> told == stopped_text(
                    message->stopped_count as int,
                )
                &&& message->stopped_count == 0 ==> told[0] == 'n'
                &&& todo == Todo::Return
            }
        }),
{
    reveal_strlit("no agents running in this repo");
}

/// A worktree that was made is told by its name and its place.
pub proof fn new_worktrees_are_told_by_name_and_place(
    command: HubCommand,
    branch_name: String,
    path: String,
    started: Seq<Seq<char>>,
)
    requires
        command is AddWorktree,
    ensures
        ({
            let told = words_of(
                command.answered((HubMessage::WorktreeAdded { branch_name, path }), started).0[0],
            );
            let name = command->AddWorktree_name@;
            &&& told.subrange(10, 10 + name.len() as int) == name
            &&& told.len() >= path@.len()
            &&& told.skip(told.len() - path@.len()) == path@
        }),
{
    reveal_strlit("worktree '");
    let told = words_of(
        command.answered((HubMessage::WorktreeAdded { branch_name, path }), started).0[0],
    );
    let name = command->AddWorktree_name@;
    assert(told.subrange(10, 10 + name.len() as int) =~= name);
    assert(told.skip(told.len() - path@.len()) =~= path@);
}

/// The bypass that was set is told as it was asked for, with a tick; one that was asked about is
/// told as the hub has it. An answer to the other question is a failure.
pub proof fn bypass_answers_are_told(on: bool, off: bool, enabled: bool, started: Seq<Seq<char>>)
    ensures
        ({
            let command = HubCommand::Bypass { on, off };
            let (acts, todo) = command.answered(HubMessage::Done, started);
            &&& on || off ==> acts == seq![notes::ActView::Print(bypass_note(on, true))] && todo
                == Todo::Return
            &&& !(on || off) ==> todo == Todo::Exit(1)
        }),
        ({
            let command = HubCommand::Bypass { on, off };
            let (acts, todo) = command.answered(
                (HubMessage::BypassPermissions { enabled }),
                started,
            );
            &&& on || off ==> todo == Todo::Exit(1)
            &&& !(on || off) ==> acts == seq![notes::ActView::Print(bypass_note(enabled, false))]
                && todo == Todo::Return
        }),
        bypass_note(enabled, true).mark == Mark::Tick,
        bypass_note(enabled, false).mark == Mark::Bare,
{
}

/// An answer that does not belong to the command makes it fail, save where an agent or a list
/// was asked for.
pub proof fn other_answers_fail(command: HubCommand, started: Seq<Seq<char>>)
    ensures
        ({
            let (acts, todo) = command.answered(HubMessage::HubShutdown, started);
            let lenient = command is Start || command is Attach || command is List;
            &&& lenient ==> acts.len() == 0 && todo == Todo::Return
            &&& !lenient ==> acts == seq![command.unexpected()] && todo == Todo::Exit(1)
        }),
{
}

/// A command tells what it is about while it waits, a worktree by its name.
pub proof fn waiting_commands_tell_what_they_do(command: HubCommand)
    ensures
        ({
            let acts = command.opening();
            let told = words_of(acts.last());
            &&& acts.len() > 0 <==> command.spins()
            &&& command.spins() ==> acts.last() is Spin
            &&& command is AddWorktree ==> told.subrange(
                19,
                19 + command->AddWorktree_name@.len() as int,
            ) == command->AddWorktree_name@
            &&& command is RemoveWorktree ==> told.subrange(
                19,
                19 + command->RemoveWorktree_branch_name@.len() as int,
            ) == command->RemoveWorktree_branch_name@
        }),
        command is Start ==> command.spins() == command->background,
        command is Attach || command is List ==> !command.spins(),
{
    reveal_strlit("creating worktree '");
    reveal_strlit("removing worktree '");
    let told = words_of(command.opening().last());
    if command is AddWorktree {
        let name = command->AddWorktree_name@;
        assert(told.subrange(19, 19 + name.len() as int) =~= name);
    }
    if command is RemoveWorktree {
        let name = command->RemoveWorktree_branch_name@;
        assert(told.subrange(19, 19 + name.len() as int) =~= name);
    }
}

/// A worktree's row counts its agents, and dirty ones are in the color of a warning.
pub proof fn worktree_rows_count_agents(wt: WorktreeEntry)
    ensures
        worktree_row_note(wt).pieces[4].text == formatting::column(
            text::decimal(wt.active_agents@.len()),
            8,
        ),
        worktree_row_note(wt).pieces[6].ink == Ink::Warning <==> wt.is_dirty,
{
}

/// A run asks once it is connected, waits for the answer, and goes on as the answer says.
pub proof fn answers_lead_on(command: HubCommand, message: HubMessage, started: Vec<String>)
    ensures
        ({
            let run = CommandRun { command, phase: CommandPhase::Receiving };
            let (phase, acts, todo) = run.next((CommandEvent::Received { message, started }));
            let (said, next) = command.answered(message, text::strings_view(started@));
            &&& acts == said
            &&& todo == next
            &&& next is Attach ==> phase == CommandPhase::InSession(next->Attach_0)
            &&& next is StartIn ==> phase == CommandPhase::StartingIn
            &&& next is Return || next is Exit ==> phase == CommandPhase::Over
        }),
        ({
            let run = CommandRun { command, phase: CommandPhase::Sending };
            run.next(CommandEvent::Sent).2 == Todo::Receive
        }),
        ({
            let run = CommandRun { command, phase: CommandPhase::Connecting };
            run.next(CommandEvent::Connected).2 == Todo::Send(command.request())
        }),
{
}

} // verus!
