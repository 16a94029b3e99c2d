//! What the client and the hub say to each other, as plain data.

use vstd::prelude::*;

verus! {

/// A running agent, as the hub lists it.
#[derive(Debug, Clone)]
pub struct AgentInfo {
    pub id: String,
    pub agent_binary: String,
    pub started_at: String,
    pub attached_clients: usize,
    pub hub: String,
    pub working_dir: String,
    pub repo_path: Option<String>,
    pub branch_name: Option<String>,
    pub is_worktree: bool,
    pub batch_title: Option<String>,
}

/// A branch of a registered repository.
#[derive(Debug, Clone)]
pub struct BranchInfo {
    pub name: String,
    pub is_head: bool,
    pub is_remote: bool,
    pub is_worktree: bool,
    pub active_agent_count: usize,
}

/// A registered repository.
#[derive(Debug, Clone)]
pub struct RepoInfo {
    pub path: String,
    pub name: String,
    pub color: Option<String>,
    pub local_branches: Vec<BranchInfo>,
    pub remote_branches: Vec<BranchInfo>,
}

/// A worktree of a repository.
#[derive(Debug, Clone)]
pub struct WorktreeEntry {
    pub branch_name: String,
    pub path: String,
    pub is_main: bool,
    pub is_dirty: bool,
    pub active_agents: Vec<AgentInfo>,
}

/// What the client says.
#[derive(Debug, Clone)]
pub enum CliMessage {
    Ping { protocol_version: u32 },
    StopHub,
    AttachAgent { id: String },
    DetachAgent { id: String },
    AgentInput { id: String, data: Vec<u8> },
    ResizeAgent { id: String, cols: u16, rows: u16 },
    StartTerminal { working_dir: String, cols: u16, rows: u16, agent_id: Option<String> },
    DetachTerminal { id: String },
    TerminalInput { id: String, data: Vec<u8> },
    ResizeTerminal { id: String, cols: u16, rows: u16 },
    GetDefault,
    SetDefault { agent_binary: String },
    GetBypassPermissions,
    SetBypassPermissions { enabled: bool },
    ListAgents { hub: Option<String>, batch: Option<String> },
    StopAgent { id: String },
    StartAgent {
        prompt: Option<String>,
        agent_binary: Option<String>,
        working_dir: String,
        cols: u16,
        rows: u16,
        accept_edits: bool,
        plan_mode: bool,
        allow_bypass: bool,
        hub: String,
    },
    RegisterRepo { path: String },
    UnregisterRepo { path: String },
    StopRepoAgents { path: String },
    ListWorktrees { working_dir: Option<String>, repo_name: Option<String> },
    AddWorktree {
        working_dir: Option<String>,
        repo_name: Option<String>,
        branch_name: String,
        base_branch: Option<String>,
        checkout_existing: bool,
    },
    RemoveWorktree {
        working_dir: Option<String>,
        repo_name: Option<String>,
        branch_name: String,
        delete_local_branch: bool,
        force: bool,
    },
    GetWorktreeInfo {
        working_dir: Option<String>,
        repo_name: Option<String>,
        branch_name: String,
    },
    UpdateScheduledTaskPrompt { id: String, prompt: String },
}

/// What the hub says.
#[derive(Debug, Clone)]
pub enum HubMessage {
    Done,
    Pong { protocol_version: u32 },
    HubShutdown,
    Error { message: String },
    AgentStarted {
        id: String,
        agent_binary: String,
        is_worktree: bool,
        repo_path: Option<String>,
        branch_name: Option<String>,
    },
    AgentAttached {
        id: String,
        agent_binary: String,
        is_worktree: bool,
        repo_path: Option<String>,
        branch_name: Option<String>,
    },
    AgentOutput { id: String, data: Vec<u8> },
    AgentReplayComplete { id: String },
    AgentExited { id: String, exit_code: i32 },
    AgentStopped { id: String },
    AgentList { agents: Vec<AgentInfo> },
    DefaultAgent { agent_binary: Option<String> },
    BypassPermissions { enabled: bool },
    RepoRegistered { path: String, name: String },
    RepoUnregistered { path: String, name: String, stopped_agents: usize },
    RepoAgentsStopped { path: String, stopped_count: usize },
    TerminalStarted { id: String },
    TerminalOutput { id: String, data: Vec<u8> },
    TerminalReplayComplete { id: String },
    TerminalExited { id: String, exit_code: i32 },
    WorktreeList { repo_name: String, worktrees: Vec<WorktreeEntry> },
    WorktreeAdded { branch_name: String, path: String },
    WorktreeRemoved { branch_name: String, stopped_agents: usize },
    WorktreeInfoResult { info: WorktreeEntry },
}

} // verus!
