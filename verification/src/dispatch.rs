//! What the program does for a command line.

use vstd::prelude::*;

use crate::cli;
use crate::overview;
use crate::cli::{validate_hub_name, Cli, Commands, WtCommands};
use crate::commands::DEFAULT_HUB;
use crate::text::{copy_of, joined, text_eq};

verus! {

/// What to do.
#[derive(Debug, Clone)]
pub enum Plan {
    /// Complain and fail.
    Reject(String),
    /// Open the terminal UI.
    Ui { hub: String },
    /// List agents, or let the user choose one.
    List { select: bool, hub: Option<String> },
    ListWorktrees,
    AddWorktree { name: String, prompt: Option<String> },
    RemoveWorktree { branch: Option<String>, delete_local: bool },
    WorktreeInfo { name: String },
    AddRepo,
    RemoveRepo,
    StopRepo,
    Nothing,
    StopHub,
    StopAgent(String),
    PickDefault,
    Attach(String),
    /// Start an agent and attach, or leave it in the background.
    Start {
        prompt: Option<String>,
        background: bool,
        accept_edits: bool,
        use_agent: Option<String>,
        hub: String,
    },
}

#[verifier::ext_equal]
pub ghost enum PlanView {
    Reject(Seq<char>),
    Ui { hub: Seq<char> },
    List { select: bool, hub: Option<Seq<char>> },
    ListWorktrees,
    AddWorktree { name: Seq<char>, prompt: Option<Seq<char>> },
    RemoveWorktree { branch: Option<Seq<char>>, delete_local: bool },
    WorktreeInfo { name: Seq<char> },
    AddRepo,
    RemoveRepo,
    StopRepo,
    Nothing,
    StopHub,
    StopAgent(Seq<char>),
    PickDefault,
    Attach(Seq<char>),
    Start {
        prompt: Option<Seq<char>>,
        background: bool,
        accept_edits: bool,
        use_agent: Option<Seq<char>>,
        hub: Seq<char>,
    },
}

impl View for Plan {
    type V = PlanView;

    open spec fn view(&self) -> PlanView {
        match *self {
            Plan::Reject(s) => PlanView::Reject(s@),
            Plan::Ui { hub } => PlanView::Ui { hub: hub@ },
            Plan::List { select, hub } => PlanView::List { select, hub: overview::opt_view(hub) },
            Plan::ListWorktrees => PlanView::ListWorktrees,
            Plan::AddWorktree { name, prompt } => PlanView::AddWorktree {
                name: name@,
                prompt: overview::opt_view(prompt),
            },
            Plan::RemoveWorktree { branch, delete_local } => PlanView::RemoveWorktree {
                branch: overview::opt_view(branch),
                delete_local,
            },
            Plan::WorktreeInfo { name } => PlanView::WorktreeInfo { name: name@ },
            Plan::AddRepo => PlanView::AddRepo,
            Plan::RemoveRepo => PlanView::RemoveRepo,
            Plan::StopRepo => PlanView::StopRepo,
            Plan::Nothing => PlanView::Nothing,
            Plan::StopHub => PlanView::StopHub,
            Plan::StopAgent(id) => PlanView::StopAgent(id@),
            Plan::PickDefault => PlanView::PickDefault,
            Plan::Attach(id) => PlanView::Attach(id@),
            Plan::Start { prompt, background, accept_edits, use_agent, hub } => PlanView::Start {
                prompt: overview::opt_view(prompt),
                background,
                accept_edits,
                use_agent: overview::opt_view(use_agent),
                hub: hub@,
            },
        }
    }
}

/// What is wrong with the name of a hub that was given, if any.
pub open spec fn hub_complaint(hub: Option<Seq<char>>) -> Option<Seq<char>> {
    match hub {
        Some(name) => match cli::name_fault(name) {
            Some(fault) => Some("invalid hub name: "@ + fault),
            None => None,
        },
        None => None,
    }
}

pub open spec fn hub_or_default(hub: Option<Seq<char>>) -> Seq<char> {
    match hub {
        Some(name) => name,
        None => DEFAULT_HUB@,
    }
}

/// What to do where no command follows.
pub open spec fn plan_of_flags(cli: cli::CliView) -> PlanView {
    if cli.stop is Some {
        if cli.stop->0.len() == 0 {
            PlanView::StopHub
        } else {
            PlanView::StopAgent(cli.stop->0)
        }
    } else if cli.default {
        PlanView::PickDefault
    } else if cli.attach is Some {
        PlanView::Attach(cli.attach->0)
    } else {
        PlanView::Start {
            prompt: cli.prompt,
            background: cli.background,
            accept_edits: cli.accept_edits,
            use_agent: cli.use_agent,
            hub: hub_or_default(cli.hub),
        }
    }
}

/// What to do for a command line. A bad hub name is rejected before anything else, a dot as the
/// prompt opens the UI, and commands go before flags.
pub open spec fn plan_of(cli: cli::CliView) -> PlanView {
    match hub_complaint(cli.hub) {
        Some(complaint) => PlanView::Reject(complaint),
        None => if cli.command == Some(cli::CommandsView::Ui) || cli.prompt == Some("."@) {
            PlanView::Ui { hub: hub_or_default(cli.hub) }
        } else {
            match cli.command {
                Some(cli::CommandsView::Ls { select, hub }) => match hub_complaint(hub) {
                    Some(complaint) => PlanView::Reject(complaint),
                    None => PlanView::List { select, hub },
                },
                Some(cli::CommandsView::Wt(wt)) => match wt {
                    cli::WtView::Ls => PlanView::ListWorktrees,
                    cli::WtView::Add { name, prompt } => PlanView::AddWorktree { name, prompt },
                    cli::WtView::Rm { branch, delete_local } => PlanView::RemoveWorktree {
                        branch,
                        delete_local,
                    },
                    cli::WtView::Info { name } => PlanView::WorktreeInfo { name },
                },
                Some(cli::CommandsView::Repo { register, remove, stop }) => if register {
                    PlanView::AddRepo
                } else if remove {
                    PlanView::RemoveRepo
                } else if stop {
                    PlanView::StopRepo
                } else {
                    PlanView::Nothing
                },
                _ => plan_of_flags(cli),
            }
        },
    }
}

fn complaint_about(hub: &Option<String>) -> (complaint: Option<String>)
    ensures
        overview::opt_view(complaint) == hub_complaint(overview::opt_view(*hub)),
{
    match hub {
        Some(name) => match validate_hub_name(name.as_str()) {
            Ok(()) => None,
            Err(fault) => Some(joined("invalid hub name: ", fault.as_str())),
        },
        None => None,
    }
}

/// What to do for a command line.
pub fn plan(args: Cli) -> (plan: Plan)
    ensures
        plan@ == plan_of(args@),
{
    // Validate hub name if provided on top-level flag
    if let Some(complaint) = complaint_about(&args.hub) {
        return Plan::Reject(complaint);
    }
    let Cli {
        background,
        attach,
        stop,
        default,
        accept_edits,
        use_agent,
        hub,
        prompt,
        command,
    } = args;
    let hub = match hub {
        Some(name) => name,
        None => copy_of(DEFAULT_HUB),
    };
    let dot = match &prompt {
        Some(p) => text_eq(p.as_str(), "."),
        None => false,
    };
    let ui = match &command {
        Some(Commands::Ui) => true,
        _ => false,
    };
    // Subcommand: ui (also triggered by `clust .`)
    if ui || dot {
        return Plan::Ui { hub };
    }
    if let Some(command) = command {
        match command {
            Commands::Ls { select, hub } => {
                return match complaint_about(&hub) {
                    Some(complaint) => Plan::Reject(complaint),
                    None => Plan::List { select, hub },
                };
            },
            Commands::Wt(wt) => {
                return match wt {
                    WtCommands::Ls => Plan::ListWorktrees,
                    WtCommands::Add { name, prompt } => Plan::AddWorktree { name, prompt },
                    WtCommands::Rm { branch, delete_local } => Plan::RemoveWorktree {
                        branch,
                        delete_local,
                    },
                    WtCommands::Info { name } => Plan::WorktreeInfo { name },
                };
            },
            Commands::Repo { register, remove, stop } => {
                return if register {
                    Plan::AddRepo
                } else if remove {
                    Plan::RemoveRepo
                } else if stop {
                    Plan::StopRepo
                } else {
                    Plan::Nothing
                };
            },
            Commands::Ui => {},
        }
    }
    // Flag: -s / --stop (no value = stop hub, with value = stop agent)
    if let Some(id) = stop {
        return if id.as_str().is_empty() {
            Plan::StopHub
        } else {
            Plan::StopAgent(id)
        };
    }
    if default {
        return Plan::PickDefault;
    }
    if let Some(id) = attach {
        return Plan::Attach(id);
    }
    Plan::Start { prompt, background, accept_edits, use_agent, hub }
}

/// Nothing is started in a hub with a bad name.
pub proof fn bad_hub_names_start_nothing(cli: cli::CliView)
    requires
        cli.hub is Some,
        cli::name_fault(cli.hub->0) is Some,
    ensures
        plan_of(cli) is Reject,
{
}

/// Whether a command line names no hub that could not be one, and asks for no terminal UI.
pub open spec fn is_plain(cli: cli::CliView) -> bool {
    &&& cli.hub is None || cli::name_fault(cli.hub->0) is None
    &&& cli.prompt != Some("."@)
}

/// The terminal UI opens for its command, and for a lone dot.
pub proof fn ui_opens_when_asked_for(cli: cli::CliView)
    requires
        cli.hub is None || cli::name_fault(cli.hub->0) is None,
    ensures
        plan_of(cli) is Ui <==> cli.command == Some(cli::CommandsView::Ui) || cli.prompt
            == Some("."@),
        plan_of(cli) is Ui && cli.hub is Some ==> plan_of(cli)->Ui_hub == cli.hub->0,
        plan_of(cli) is Ui && cli.hub is None ==> plan_of(cli)->Ui_hub == DEFAULT_HUB@,
{
}

/// Without a command the flags decide: stopping goes first, then choosing a default, then
/// attaching, and else an agent is started, with everything that was said of it.
pub proof fn flags_are_followed(cli: cli::CliView)
    requires
        is_plain(cli),
        cli.command is None,
    ensures
        ({
            let plan = plan_of(cli);
            &&& cli.stop matches Some(id) ==> (if id.len() == 0 {
                plan is StopHub
            } else {
                plan is StopAgent && plan->StopAgent_0 == id
            })
            &&& cli.stop is None && cli.default ==> plan is PickDefault
            &&& cli.stop is None && !cli.default && cli.attach is Some ==> plan is Attach
                && plan->Attach_0 == cli.attach->0
            &&& cli.stop is None && !cli.default && cli.attach is None ==> {
                &&& plan is Start
                &&& plan->Start_prompt == cli.prompt
                &&& plan->Start_background == cli.background
                &&& plan->Start_accept_edits == cli.accept_edits
                &&& plan->Start_use_agent == cli.use_agent
                &&& cli.hub is Some ==> plan->Start_hub == cli.hub->0
                &&& cli.hub is None ==> plan->Start_hub == DEFAULT_HUB@
            }
        }),
{
}

/// A command is followed with its own options: lists show the hub that was named, worktrees are
/// those that were named, and a repository is added, removed or stopped as was said.
pub proof fn commands_are_followed(cli: cli::CliView)
    requires
        is_plain(cli),
    ensures
        ({
            let plan = plan_of(cli);
            match cli.command {
                Some(cli::CommandsView::Ls { select, hub }) => {
                    &&& plan is Reject <==> hub is Some && cli::name_fault(hub->0) is Some
                    &&& !(plan is Reject) ==> plan is List && plan->List_select == select
                        && plan->List_hub == hub
                },
                Some(cli::CommandsView::Wt(cli::WtView::Ls)) => plan is ListWorktrees,
                Some(cli::CommandsView::Wt(cli::WtView::Add { name, prompt })) => plan
                    is AddWorktree && plan->AddWorktree_name == name && plan->AddWorktree_prompt
                    == prompt,
                Some(cli::CommandsView::Wt(cli::WtView::Rm { branch, delete_local })) => plan
                    is RemoveWorktree && plan->RemoveWorktree_branch == branch
                    && plan->RemoveWorktree_delete_local == delete_local,
                Some(cli::CommandsView::Wt(cli::WtView::Info { name })) => plan is WorktreeInfo
                    && plan->WorktreeInfo_name == name,
                Some(cli::CommandsView::Repo { register, remove, stop }) => {
                    &&& register ==> plan is AddRepo
                    &&& !register && remove ==> plan is RemoveRepo
                    &&& !register && !remove && stop ==> plan is StopRepo
                    &&& !register && !remove && !stop ==> plan is Nothing
                },
                _ => true,
            }
        }),
{
}

/// A name that no hub can have is refused with what is wrong about it, before the command is
/// looked at and for the hub of a list too.
pub proof fn refusals_tell_what_is_wrong(cli: cli::CliView)
    requires
        cli.hub is Some,
        cli::name_fault(cli.hub->0) is Some,
    ensures
        ({
            let told = plan_of(cli)->Reject_0;
            let fault = cli::name_fault(cli.hub->0)->0;
            &&& plan_of(cli) is Reject
            &&& told.skip(told.len() - fault.len()) == fault
        }),
{
    let fault = cli::name_fault(cli.hub->0)->0;
    let told = "invalid hub name: "@ + fault;
    assert(told.skip(told.len() - fault.len()) =~= fault);
}

/// What is not said of the hub is the default.
pub proof fn unnamed_hubs_are_the_default(name: Seq<char>)
    ensures
        hub_or_default(Some(name)) == name,
        hub_or_default(None) == DEFAULT_HUB@,
{
}

} // verus!
